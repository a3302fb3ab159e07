//! The rules of the guessing game as the server plays them: which character
//! is the answer, what a profile lists, and how a guess is judged.
use rand::Rng;
use vstd::prelude::*;
use vstd::string::StringExecFns;
use crate::dota::{DotaEntry, DotaEntryV, entry_fields};
use crate::json::{
    Json, JsonNumber, JsonV, NumberV, as_array, as_str, as_u64, index_key, json_eq, member, views,
    lemma_json_eq_reflexive, lemma_json_eq_symmetric, lemma_json_eq_transitive,
};
use crate::profile::{Correctness, FieldComparison, FieldComparisonV, GuessResponse, GuessResponseV, comparison_views};
use crate::text::decimal;

verus! {

/// Some element of `s` equals `x`.
pub open spec fn has_equal(s: Seq<JsonV>, x: JsonV) -> bool {
    exists|i: int| 0 <= i < s.len() && json_eq(#[trigger] s[i], x)
}

/// Every element of one list equals some element of the other, both ways:
/// the two lists hold the same set of values.
pub open spec fn same_members(p: Seq<JsonV>, a: Seq<JsonV>) -> bool {
    &&& forall|i: int| 0 <= i < p.len() ==> has_equal(a, #[trigger] p[i])
    &&& forall|j: int| 0 <= j < a.len() ==> has_equal(p, #[trigger] a[j])
}

/// Some element of the one list equals some element of the other.
pub open spec fn overlaps(p: Seq<JsonV>, a: Seq<JsonV>) -> bool {
    exists|i: int| 0 <= i < p.len() && has_equal(a, #[trigger] p[i])
}

/// The verdict on a list field: correct when both lists hold the same
/// elements, partially correct when they share one, incorrect otherwise.
pub open spec fn partial_correctness(p: Seq<JsonV>, a: Seq<JsonV>) -> Correctness {
    if same_members(p, a) {
        Correctness::Correct
    } else if overlaps(p, a) {
        Correctness::PartiallyCorrect
    } else {
        Correctness::Incorrect
    }
}

/// The verdict on the field `key` whose guessed value is `pv`, when the answer
/// has `av` there.
pub open spec fn field_correctness(key: Seq<char>, pv: JsonV, av: Option<JsonV>) -> Correctness {
    match av {
        Some(a) => if json_eq(pv, a) {
            Correctness::Correct
        } else if key == "position"@ {
            match (pv, a) {
                (JsonV::Array(p), JsonV::Array(q)) => partial_correctness(p, q),
                _ => Correctness::Incorrect,
            }
        } else {
            Correctness::Incorrect
        },
        None => Correctness::Incorrect,
    }
}

/// The name a response gives a character: its name when that is a string,
/// the empty text otherwise.
pub open spec fn display_name(name: JsonV) -> Seq<char> {
    match as_str(name) {
        Some(s) => s,
        None => Seq::empty(),
    }
}

/// The comparison of one field of the guess with the answer.
pub open spec fn compare_field(field: (Seq<char>, JsonV), answer: DotaEntryV) -> FieldComparisonV {
    FieldComparisonV {
        field: field.0,
        value: field.1,
        correct: field_correctness(field.0, field.1, member(entry_fields(answer), field.0)),
    }
}

/// The response to guessing `player` when the answer is `answer`.
pub open spec fn guess_response(player: DotaEntryV, answer: DotaEntryV) -> GuessResponseV {
    GuessResponseV {
        name: display_name(player.name),
        fields: entry_fields(player).map_values(|f: (Seq<char>, JsonV)| compare_field(f, answer)),
    }
}

/// Whether `x` equals some element of `vs`.
fn contains_value(vs: &Vec<Json>, x: &Json) -> (r: bool)
    ensures
        r == has_equal(views(vs@), x@),
{
    let ghost s = views(vs@);
    let mut i: usize = 0;
    while i < vs.len()
        invariant
            0 <= i <= vs.len(),
            s == views(vs@),
            forall|j: int| 0 <= j < i ==> !json_eq(#[trigger] s[j], x@),
        decreases vs.len() - i,
    {
        if vs[i].same(x) {
            assert(json_eq(s[i as int], x@));
            return true;
        }
        i += 1;
    }
    false
}

/// The verdict on a list field whose guessed elements are `player` and whose
/// answer elements are `answer`, compared as sets.
pub fn check_partial_correctness(player: &Vec<Json>, answer: &Vec<Json>) -> (r: Correctness)
    ensures
        r == partial_correctness(views(player@), views(answer@)),
{
    let ghost p = views(player@);
    let ghost a = views(answer@);
    let mut same = true;
    let mut i: usize = 0;
    while i < player.len()
        invariant
            0 <= i <= player.len(),
            p == views(player@),
            a == views(answer@),
            same ==> forall|k: int| 0 <= k < i ==> has_equal(a, #[trigger] p[k]),
            !same ==> !same_members(p, a),
        decreases player.len() - i,
    {
        assert(p[i as int] == player[i as int]@);
        if !contains_value(answer, &player[i]) {
            same = false;
        }
        i += 1;
    }
    let mut j: usize = 0;
    while j < answer.len()
        invariant
            0 <= j <= answer.len(),
            p == views(player@),
            a == views(answer@),
            same ==> forall|k: int| 0 <= k < p.len() ==> has_equal(a, #[trigger] p[k]),
            same ==> forall|k: int| 0 <= k < j ==> has_equal(p, #[trigger] a[k]),
            !same ==> !same_members(p, a),
        decreases answer.len() - j,
    {
        assert(a[j as int] == answer[j as int]@);
        if !contains_value(player, &answer[j]) {
            same = false;
        }
        j += 1;
    }
    if same {
        return Correctness::Correct;
    }
    let mut k: usize = 0;
    while k < player.len()
        invariant
            0 <= k <= player.len(),
            p == views(player@),
            a == views(answer@),
            !same_members(p, a),
            forall|m: int| 0 <= m < k ==> !has_equal(a, #[trigger] p[m]),
        decreases player.len() - k,
    {
        assert(p[k as int] == player[k as int]@);
        if contains_value(answer, &player[k]) {
            assert(has_equal(a, p[k as int]));
            return Correctness::PartiallyCorrect;
        }
        k += 1;
    }
    Correctness::Incorrect
}

/// Judges a guess: each field the guessed character is compared on, with its
/// value and how it matches the answer's field of the same name.
pub fn compare_entries(player: &DotaEntry, answer: &DotaEntry) -> (r: GuessResponse)
    ensures
        r@ == guess_response(player@, answer@),
{
    let ghost target = guess_response(player@, answer@);
    let fields = player.fields();
    let ghost fs = crate::dota::field_views(fields@);
    let mut out: Vec<FieldComparison> = Vec::new();
    let mut i: usize = 0;
    while i < fields.len()
        invariant
            0 <= i <= fields.len(),
            fs == crate::dota::field_views(fields@),
            fs == entry_fields(player@),
            target == guess_response(player@, answer@),
            out.len() == i,
            forall|j: int| 0 <= j < i ==> out[j]@ == #[trigger] target.fields[j],
        decreases fields.len() - i,
    {
        let key = fields[i].0;
        let value = &fields[i].1;
        let correct = match answer.get(key) {
            Some(answer_value) => {
                if value.same(&answer_value) {
                    Correctness::Correct
                } else if crate::text::str_eq(key, "position") {
                    match (value, &answer_value) {
                        (Json::Array(p), Json::Array(q)) => {
                            proof {
                                crate::json::lemma_array_view(*value);
                                crate::json::lemma_array_view(answer_value);
                            }
                            check_partial_correctness(p, q)
                        },
                        _ => Correctness::Incorrect,
                    }
                } else {
                    Correctness::Incorrect
                }
            },
            None => Correctness::Incorrect,
        };
        out.push(FieldComparison { field: String::from_str(key), value: value.duplicate(), correct });
        i += 1;
    }
    let name = match player.name.as_str() {
        Some(s) => String::from_str(s),
        None => String::new(),
    };
    let r = GuessResponse { name, fields: out };
    assert(comparison_views(r.fields@) =~= target.fields);
    r
}

/// The list of characters of a profile: its member `items`, or `null`.
pub open spec fn profile_items(profile: JsonV) -> JsonV {
    index_key(profile, "items"@)
}

/// Whether an item of a profile has the id `id`: its member `id` is that
/// non-negative integer.
pub open spec fn has_id(item: JsonV, id: u64) -> bool {
    as_u64(index_key(item, "id"@)) == Some(id)
}

/// The first item with the id `id`.
pub open spec fn first_with_id(items: Seq<JsonV>, id: u64) -> Option<JsonV>
    decreases items.len(),
{
    if items.len() == 0 {
        None
    } else if has_id(items[0], id) {
        Some(items[0])
    } else {
        first_with_id(items.drop_first(), id)
    }
}

/// The id an item can be the answer under: its integer id, cut to a byte.
pub open spec fn candidate_id(item: JsonV) -> Option<u8> {
    match as_u64(index_key(item, "id"@)) {
        Some(n) => Some((n % 256) as u8),
        None => None,
    }
}

/// The ids of the items that have one, in their order.
pub open spec fn candidate_ids(items: Seq<JsonV>) -> Seq<u8>
    decreases items.len(),
{
    if items.len() == 0 {
        Seq::empty()
    } else {
        let rest = candidate_ids(items.drop_last());
        match candidate_id(items.last()) {
            Some(n) => rest.push(n),
            None => rest,
        }
    }
}

/// The ids a profile's answer is picked from; none when it lists no items.
pub open spec fn answer_candidates_spec(profile: JsonV) -> Seq<u8> {
    match as_array(profile_items(profile)) {
        Some(items) => candidate_ids(items),
        None => Seq::empty(),
    }
}

/// The answer picked at position `idx` of `ids`; 1 when there is none there.
pub open spec fn chosen_answer(ids: Seq<u8>, idx: int) -> u8 {
    if 0 <= idx < ids.len() {
        ids[idx]
    } else {
        1
    }
}

/// Where the search for the first item with an id stands after looking at
/// the first `i` items, none of which has it.
proof fn lemma_first_with_id_skip(items: Seq<JsonV>, id: u64, i: int)
    requires
        0 <= i <= items.len(),
        forall|j: int| 0 <= j < i ==> !has_id(#[trigger] items[j], id),
    ensures
        first_with_id(items, id) == first_with_id(items.subrange(i, items.len() as int), id),
    decreases i,
{
    if i > 0 {
        assert forall|j: int| 0 <= j < i - 1 implies !has_id(#[trigger] items.drop_first()[j], id) by {
            assert(items.drop_first()[j] == items[j + 1]);
        }
        lemma_first_with_id_skip(items.drop_first(), id, i - 1);
        assert(items.drop_first().subrange(i - 1, items.drop_first().len() as int)
            =~= items.subrange(i, items.len() as int));
    } else {
        assert(items.subrange(0, items.len() as int) =~= items);
    }
}

/// The id of an item: its member `id` as a non-negative integer.
fn item_id(item: &Json) -> (r: Option<u64>)
    ensures
        r == as_u64(index_key(item@, "id"@)),
{
    match item.get("id") {
        Some(v) => v.as_u64(),
        None => None,
    }
}

/// The characters a profile lists: its member `items`, or `null`.
pub fn list_items(profile: &Json) -> (r: Json)
    ensures
        r@ == profile_items(profile@),
{
    match profile.get("items") {
        Some(items) => items.duplicate(),
        None => Json::Null,
    }
}

/// The position of the first item with the id `id`.
pub fn find_item(items: &Vec<Json>, id: u64) -> (r: Option<usize>)
    ensures
        r matches Some(k) ==> k < items.len() && first_with_id(views(items@), id) == Some(items[k as int]@),
        r is None ==> first_with_id(views(items@), id) is None,
{
    let ghost vs = views(items@);
    let mut i: usize = 0;
    while i < items.len()
        invariant
            0 <= i <= items.len(),
            vs == views(items@),
            forall|j: int| 0 <= j < i ==> !has_id(#[trigger] vs[j], id),
        decreases items.len() - i,
    {
        if item_id(&items[i]) == Some(id) {
            proof {
                lemma_first_with_id_skip(vs, id, i as int);
            }
            return Some(i);
        }
        i += 1;
    }
    proof {
        lemma_first_with_id_skip(vs, id, i as int);
    }
    None
}

/// The ids the answer is picked from: the id of each item of the profile
/// that has an integer id, cut to a byte, in the items' order.
pub fn answer_candidates(profile: &Json) -> (r: Vec<u8>)
    ensures
        r@ == answer_candidates_spec(profile@),
{
    let items = match profile.get("items") {
        Some(v) => v,
        None => {
            return Vec::new();
        },
    };
    let items = match items.as_array() {
        Some(a) => a,
        None => {
            return Vec::new();
        },
    };
    let ghost vs = views(items@);
    let mut ids: Vec<u8> = Vec::new();
    let mut i: usize = 0;
    while i < items.len()
        invariant
            0 <= i <= items.len(),
            vs == views(items@),
            as_array(profile_items(profile@)) == Some(vs),
            ids@ == candidate_ids(vs.take(i as int)),
        decreases items.len() - i,
    {
        assert(vs.take(i + 1).drop_last() =~= vs.take(i as int));
        if let Some(n) = item_id(&items[i]) {
            ids.push((n % 256) as u8);
        }
        i += 1;
    }
    assert(vs.take(i as int) =~= vs);
    ids
}

/// The answer at position `idx` of `ids`, or 1 when `idx` is past the end.
pub fn choose_answer(ids: &Vec<u8>, idx: usize) -> (r: u8)
    ensures
        r == chosen_answer(ids@, idx as int),
{
    if idx < ids.len() {
        ids[idx]
    } else {
        1
    }
}

/// `rand::rng().random_range(0..n)`: a position below `n`, drawn at random.
#[verifier::external_body]
fn random_below(n: usize) -> (r: usize)
    requires
        n > 0,
    ensures
        r < n,
{
    rand::rng().random_range(0..n)
}

/// How many positions the answer is drawn from: one per candidate, or a
/// single one when there is no candidate.
pub open spec fn draw_bound_spec(candidates: nat) -> nat {
    if candidates > 0 {
        candidates
    } else {
        1
    }
}

/// How many positions the answer is drawn from, for `candidates` candidates.
pub fn draw_bound(candidates: usize) -> (r: usize)
    ensures
        r == draw_bound_spec(candidates as nat),
{
    if candidates > 0 {
        candidates
    } else {
        1
    }
}

/// Picks the answer at random among the ids of the profile's items; 1 when
/// no item has an integer id.
pub fn pick_answer_id(profile: &Json) -> (r: u8)
    ensures
        exists|idx: int|
            0 <= idx < draw_bound_spec(answer_candidates_spec(profile@).len()) && r == #[trigger] chosen_answer(
                answer_candidates_spec(profile@),
                idx,
            ),
        answer_candidates_spec(profile@).len() == 0 ==> r == 1,
        answer_candidates_spec(profile@).len() > 0 ==> answer_candidates_spec(profile@).contains(r),
{
    let ids = answer_candidates(profile);
    let idx = random_below(draw_bound(ids.len()));
    let r = choose_answer(&ids, idx);
    proof {
        assert(r == chosen_answer(ids@, idx as int));
        if ids@.len() > 0 {
            assert(ids@[idx as int] == r);
        }
    }
    r
}

/// What a request for an item that no profile entry has is answered with:
/// `{"error": "Entry not found"}`.
pub open spec fn entry_not_found() -> JsonV {
    JsonV::Object(seq![("error"@, JsonV::Str("Entry not found"@))])
}

/// The answer to a request for the profile item `id`: the first item with
/// that id, or the error object when there is none.
pub open spec fn profile_item_spec(profile: JsonV, id: u8) -> JsonV {
    match as_array(profile_items(profile)) {
        Some(items) => match first_with_id(items, id as u64) {
            Some(item) => item,
            None => entry_not_found(),
        },
        None => entry_not_found(),
    }
}

/// The error object `{"error": "Entry not found"}`.
fn not_found_json() -> (r: Json)
    ensures
        r@ == entry_not_found(),
{
    let r = Json::Object(vec![(String::from_str("error"), Json::String(String::from_str("Entry not found")))]);
    proof {
        crate::json::lemma_object_view(r);
    }
    assert(crate::json::member_views(r->Object_0@) =~= seq![("error"@, JsonV::Str("Entry not found"@))]);
    r
}

/// The profile item with the id `id`, or the error object when there is none.
pub fn get_profile_item(profile: &Json, id: u8) -> (r: Json)
    ensures
        r@ == profile_item_spec(profile@, id),
{
    if let Some(items) = profile.get("items") {
        if let Some(items) = items.as_array() {
            return match find_item(items, id as u64) {
                Some(k) => items[k].duplicate(),
                None => not_found_json(),
            };
        }
    }
    not_found_json()
}

/// The JSON object `{"id": id}` that announces a newly picked answer.
pub open spec fn answer_id_spec(id: u8) -> JsonV {
    JsonV::Object(seq![("id"@, JsonV::Number(NumberV::PosInt(id as u64)))])
}

/// `{"id": id}`.
pub fn answer_id_json(id: u8) -> (r: Json)
    ensures
        r@ == answer_id_spec(id),
{
    let r = Json::Object(vec![(String::from_str("id"), Json::Number(JsonNumber::PosInt(id as u64)))]);
    proof {
        crate::json::lemma_object_view(r);
    }
    assert(crate::json::member_views(r->Object_0@) =~= seq![("id"@, JsonV::Number(NumberV::PosInt(id as u64)))]);
    r
}

/// Why a guess could not be judged.
#[derive(Debug)]
pub enum GuessError {
    /// The profile lists no items.
    NoItems,
    /// No item has the id.
    NotFound(u64),
    /// The item is not a well-formed character entry; the text says why.
    Malformed(String),
}

impl GuessError {
    /// The HTTP status a failed guess is answered with.
    pub fn status(&self) -> (r: u16)
        ensures
            r == match self {
                GuessError::NotFound(_) => 404u16,
                _ => 500u16,
            },
    {
        match self {
            GuessError::NotFound(_) => 404,
            _ => 500,
        }
    }

    /// The text a failed guess is answered with.
    pub fn message(&self) -> (r: String)
        ensures
            r@ == match self {
                GuessError::NoItems => "no items"@,
                GuessError::NotFound(id) => "no entry for id "@ + decimal(*id as nat),
                GuessError::Malformed(why) => why@,
            },
    {
        match self {
            GuessError::NoItems => String::from_str("no items"),
            GuessError::NotFound(id) => {
                let mut m = String::from_str("no entry for id ");
                let t = crate::text::u64_text(*id);
                m.append(t.as_str());
                m
            },
            GuessError::Malformed(why) => why.clone(),
        }
    }
}

/// The items a guess is looked up in: the profile's item list, or
/// [`GuessError::NoItems`] when the profile has none.
pub fn guess_items(profile: &Json) -> (r: Result<&Vec<Json>, GuessError>)
    ensures
        as_array(profile_items(profile@)) is None ==> r matches Err(GuessError::NoItems),
        as_array(profile_items(profile@)) matches Some(items) ==> (r matches Ok(v) && views(v@) == items),
{
    if let Some(items) = profile.get("items") {
        if let Some(a) = items.as_array() {
            return Ok(a);
        }
    }
    Err(GuessError::NoItems)
}

/// The item with the id `id`, or [`GuessError::NotFound`] when none has it.
pub fn lookup_entry(items: &Vec<Json>, id: u64) -> (r: Result<&Json, GuessError>)
    ensures
        first_with_id(views(items@), id) is None ==> (r matches Err(GuessError::NotFound(n)) && n == id),
        first_with_id(views(items@), id) matches Some(x) ==> (r matches Ok(v) && v@ == x),
{
    match find_item(items, id) {
        Some(k) => Ok(&items[k]),
        None => Err(GuessError::NotFound(id)),
    }
}

/// The answer to a guess, once the guessed character and the answer have
/// each been looked up and read: the first failure, the guessed character's
/// before the answer's, or the judgement of the guess.
pub fn judge_guess(player: Result<DotaEntry, GuessError>, answer: Result<DotaEntry, GuessError>) -> (r:
    Result<GuessResponse, GuessError>)
    ensures
        player is Err ==> r == Err::<GuessResponse, GuessError>(player->Err_0),
        player is Ok && answer is Err ==> r == Err::<GuessResponse, GuessError>(answer->Err_0),
        player is Ok && answer is Ok ==> (r matches Ok(g) && g@ == guess_response(
            player->Ok_0@,
            answer->Ok_0@,
        )),
{
    let p = match player {
        Ok(p) => p,
        Err(e) => {
            return Err(e);
        },
    };
    let a = match answer {
        Ok(a) => a,
        Err(e) => {
            return Err(e);
        },
    };
    Ok(compare_entries(&p, &a))
}

/// Guessing the answer itself is judged correct on every field.
pub proof fn lemma_answer_judged_correct(e: DotaEntryV)
    ensures
        guess_response(e, e).fields.len() == entry_fields(e).len(),
        forall|i: int|
            0 <= i < guess_response(e, e).fields.len() ==> (#[trigger] guess_response(e, e).fields[i]).correct
                == Correctness::Correct,
{
    crate::dota::lemma_entry_field_lookup(e, Seq::empty());
    assert forall|i: int| 0 <= i < guess_response(e, e).fields.len() implies (
    #[trigger] guess_response(e, e).fields[i]).correct == Correctness::Correct by {
        assert(member(entry_fields(e), entry_fields(e)[i].0) == Some(entry_fields(e)[i].1));
        lemma_json_eq_reflexive(entry_fields(e)[i].1);
    }
}

/// A value equal to one with an equal in `s` has an equal in `s` too.
proof fn lemma_has_equal_by_eq(s: Seq<JsonV>, x: JsonV, y: JsonV)
    requires
        has_equal(s, x),
        json_eq(x, y),
    ensures
        has_equal(s, y),
{
    let k = choose|k: int| 0 <= k < s.len() && json_eq(#[trigger] s[k], x);
    lemma_json_eq_transitive(s[k], x, y);
}

/// When every element of `s` has an equal in `t`, whatever has an equal in
/// `s` has one in `t`.
proof fn lemma_has_equal_transfer(s: Seq<JsonV>, t: Seq<JsonV>, x: JsonV)
    requires
        forall|i: int| 0 <= i < s.len() ==> has_equal(t, #[trigger] s[i]),
        has_equal(s, x),
    ensures
        has_equal(t, x),
{
    let k = choose|k: int| 0 <= k < s.len() && json_eq(#[trigger] s[k], x);
    assert(has_equal(t, s[k]));
    lemma_has_equal_by_eq(t, s[k], x);
}

/// The verdict on a list field does not depend on which list is the guess.
pub proof fn lemma_partial_symmetric(p: Seq<JsonV>, a: Seq<JsonV>)
    ensures
        partial_correctness(p, a) == partial_correctness(a, p),
{
    assert(same_members(p, a) == same_members(a, p));
    if overlaps(p, a) {
        let i = choose|i: int| 0 <= i < p.len() && has_equal(a, #[trigger] p[i]);
        let j = choose|j: int| 0 <= j < a.len() && json_eq(#[trigger] a[j], p[i]);
        lemma_json_eq_symmetric(a[j], p[i]);
        assert(has_equal(p, a[j]));
    }
    if overlaps(a, p) {
        let j = choose|j: int| 0 <= j < a.len() && has_equal(p, #[trigger] a[j]);
        let i = choose|i: int| 0 <= i < p.len() && json_eq(#[trigger] p[i], a[j]);
        lemma_json_eq_symmetric(p[i], a[j]);
        assert(has_equal(a, p[i]));
    }
}

/// When every element of `s` has an equal in `t` and every element of `u`
/// has an equal in `s`, every element of `u` has an equal in `t`.
proof fn lemma_all_have_equal(s: Seq<JsonV>, t: Seq<JsonV>, u: Seq<JsonV>)
    requires
        forall|i: int| 0 <= i < s.len() ==> has_equal(t, #[trigger] s[i]),
        forall|i: int| 0 <= i < u.len() ==> has_equal(s, #[trigger] u[i]),
    ensures
        forall|i: int| 0 <= i < u.len() ==> has_equal(t, #[trigger] u[i]),
{
    assert forall|i: int| 0 <= i < u.len() implies has_equal(t, #[trigger] u[i]) by {
        lemma_has_equal_transfer(s, t, u[i]);
    }
}

/// Lists with the same values as `p1` share `p1`'s set relation to `a`.
proof fn lemma_same_members_transfer(p1: Seq<JsonV>, p2: Seq<JsonV>, a: Seq<JsonV>)
    requires
        same_members(p1, p2),
        same_members(p1, a),
    ensures
        same_members(p2, a),
{
    lemma_all_have_equal(p1, a, p2);
    lemma_all_have_equal(p1, p2, a);
}

/// Lists with the same values as `p1` overlap `a` when `p1` does.
proof fn lemma_overlap_transfer(p1: Seq<JsonV>, p2: Seq<JsonV>, a: Seq<JsonV>)
    requires
        same_members(p1, p2),
        overlaps(p1, a),
    ensures
        overlaps(p2, a),
{
    let i = choose|i: int| 0 <= i < p1.len() && has_equal(a, #[trigger] p1[i]);
    assert(has_equal(p2, p1[i]));
    let m = choose|m: int| 0 <= m < p2.len() && json_eq(#[trigger] p2[m], p1[i]);
    lemma_json_eq_symmetric(p2[m], p1[i]);
    lemma_has_equal_by_eq(a, p1[i], p2[m]);
    assert(has_equal(a, p2[m]));
}

/// The verdict on a list field looks at which values the lists hold, not at
/// their order or how often each occurs.
pub proof fn lemma_partial_by_members(p1: Seq<JsonV>, p2: Seq<JsonV>, a: Seq<JsonV>)
    requires
        same_members(p1, p2),
    ensures
        partial_correctness(p1, a) == partial_correctness(p2, a),
{
    assert(same_members(p2, p1));
    if same_members(p1, a) {
        lemma_same_members_transfer(p1, p2, a);
    }
    if same_members(p2, a) {
        lemma_same_members_transfer(p2, p1, a);
    }
    if overlaps(p1, a) {
        lemma_overlap_transfer(p1, p2, a);
    }
    if overlaps(p2, a) {
        lemma_overlap_transfer(p2, p1, a);
    }
}

/// The item found for an id has that id and is one of the items.
pub proof fn lemma_first_with_id_found(items: Seq<JsonV>, id: u64)
    ensures
        first_with_id(items, id) matches Some(x) ==> has_id(x, id) && items.contains(x),
        first_with_id(items, id) is None ==> forall|j: int| 0 <= j < items.len() ==> !has_id(#[trigger] items[j], id),
    decreases items.len(),
{
    if items.len() > 0 {
        lemma_first_with_id_found(items.drop_first(), id);
        if !has_id(items[0], id) {
            if let Some(x) = first_with_id(items.drop_first(), id) {
                let k = choose|k: int| 0 <= k < items.drop_first().len() && items.drop_first()[k] == x;
                assert(items[k + 1] == x);
            }
            assert forall|j: int| 0 <= j < items.len() && first_with_id(items, id) is None implies !has_id(
                #[trigger] items[j],
                id,
            ) by {
                if j > 0 {
                    assert(items[j] == items.drop_first()[j - 1]);
                }
            }
        } else {
            assert(items.contains(items[0]));
        }
    }
}

/// A request for a profile item is answered with an item of the profile that
/// has the requested id whenever some item has it, and with the error object
/// otherwise.
pub proof fn lemma_profile_item_matches_id(profile: JsonV, id: u8)
    ensures
        profile_item_spec(profile, id) != entry_not_found() ==> has_id(profile_item_spec(profile, id), id as u64),
        profile_item_spec(profile, id) != entry_not_found() ==> (as_array(profile_items(profile)) matches Some(items)
            && items.contains(profile_item_spec(profile, id))),
        (as_array(profile_items(profile)) matches Some(items) && (exists|j: int|
            0 <= j < items.len() && has_id(#[trigger] items[j], id as u64))) ==> has_id(
            profile_item_spec(profile, id),
            id as u64,
        ),
{
    if let Some(items) = as_array(profile_items(profile)) {
        lemma_first_with_id_found(items, id as u64);
    }
}

/// The attribute of a guess is shown as the guessed character's attribute
/// name, and judged correct exactly when the two characters have the same
/// attribute; likewise the attack type.
pub proof fn lemma_attribute_and_attack_type_verdicts(p: DotaEntryV, a: DotaEntryV)
    ensures
        guess_response(p, a).fields[1].field == "attribute"@,
        guess_response(p, a).fields[1].value == JsonV::Str(p.attribute.wire_name_spec()),
        guess_response(p, a).fields[1].correct == Correctness::Correct <==> p.attribute == a.attribute,
        guess_response(p, a).fields[1].correct == Correctness::Incorrect <==> p.attribute != a.attribute,
        guess_response(p, a).fields[3].field == "attack_type"@,
        guess_response(p, a).fields[3].value == JsonV::Str(p.attack_type.wire_name_spec()),
        guess_response(p, a).fields[3].correct == Correctness::Correct <==> p.attack_type == a.attack_type,
        guess_response(p, a).fields[3].correct == Correctness::Incorrect <==> p.attack_type != a.attack_type,
{
    crate::dota::lemma_entry_field_lookup(a, Seq::empty());
    crate::dota::lemma_attribute_names(p.attribute, a.attribute);
    crate::dota::lemma_attack_type_names(p.attack_type, a.attack_type);
    reveal_strlit("attribute");
    reveal_strlit("attack_type");
    reveal_strlit("position");
    assert("attribute"@.len() != "position"@.len());
    assert("attack_type"@.len() != "position"@.len());
    let fa = entry_fields(a);
    let fp = entry_fields(p);
    assert(member(fa, fp[1].0) == Some(fa[1].1));
    assert(member(fa, fp[3].0) == Some(fa[3].1));
}

/// Every candidate id can be the answer: the draw of its position, which is
/// below the bound the answer is drawn under, picks it; and every draw below
/// that bound picks a candidate (or 1 when there is none).
pub proof fn lemma_every_candidate_can_be_picked(profile: JsonV)
    ensures
        forall|k: int|
            0 <= k < answer_candidates_spec(profile).len() ==> k < draw_bound_spec(
                answer_candidates_spec(profile).len(),
            ) && #[trigger] chosen_answer(answer_candidates_spec(profile), k)
                == answer_candidates_spec(profile)[k],
        forall|idx: int|
            0 <= idx < draw_bound_spec(answer_candidates_spec(profile).len()) ==> (answer_candidates_spec(
                profile,
            ).len() > 0 ==> answer_candidates_spec(profile).contains(
                #[trigger] chosen_answer(answer_candidates_spec(profile), idx),
            )) && (answer_candidates_spec(profile).len() == 0 ==> chosen_answer(
                answer_candidates_spec(profile),
                idx,
            ) == 1),
{
    let ids = answer_candidates_spec(profile);
    assert forall|idx: int| 0 <= idx < draw_bound_spec(ids.len()) && ids.len() > 0 implies ids.contains(
        #[trigger] chosen_answer(ids, idx),
    ) by {
        assert(ids[idx] == chosen_answer(ids, idx));
    }
}

} // verus!
