//! The guessing game as a player sees it: the characters to pick from, the
//! guesses made so far, when the game is won, and how a guess is shown.
use vstd::prelude::*;
use vstd::string::StringExecFns;
use crate::json::{Json, JsonV, json_text, number_text, lemma_array_view, views};
use crate::profile::{Correctness, FieldComparisonV, GuessResponse, GuessResponseV};
use crate::text::{contains_text, eq_ignore_ascii_case, lowercase, trimmed};
use crate::dota::DotaEntryV;
use crate::server::guess_response;

verus! {

/// A character the player can guess: its id and name.
#[derive(Debug)]
pub struct Item {
    pub id: u32,
    pub name: String,
}

/// The mathematical model of an [`Item`].
pub struct ItemV {
    pub id: u32,
    pub name: Seq<char>,
}

impl View for Item {
    type V = ItemV;

    open spec fn view(&self) -> ItemV {
        ItemV { id: self.id, name: self.name@ }
    }
}

impl Item {
    /// A copy with the same model.
    pub fn duplicate(&self) -> (r: Item)
        ensures
            r@ == self@,
    {
        Item { id: self.id, name: self.name.clone() }
    }
}

/// The models of a list of items.
pub open spec fn item_views(s: Seq<Item>) -> Seq<ItemV> {
    Seq::new(s.len(), |i: int| s[i]@)
}

/// The models of a list of guess responses.
pub open spec fn guess_views(s: Seq<GuessResponse>) -> Seq<GuessResponseV> {
    Seq::new(s.len(), |i: int| s[i]@)
}

/// What went wrong in the game, to be shown to the player.
#[derive(Debug)]
pub enum GameError {
    /// No character has the name the player typed.
    UnknownName(String),
    /// A response could not be read; the text says why.
    Parse(String),
    /// A request failed; the text says why.
    Fetch(String),
}

/// The mathematical model of a [`GameError`].
pub enum GameErrorV {
    UnknownName(Seq<char>),
    Parse(Seq<char>),
    Fetch(Seq<char>),
}

impl View for GameError {
    type V = GameErrorV;

    open spec fn view(&self) -> GameErrorV {
        match self {
            GameError::UnknownName(s) => GameErrorV::UnknownName(s@),
            GameError::Parse(s) => GameErrorV::Parse(s@),
            GameError::Fetch(s) => GameErrorV::Fetch(s@),
        }
    }
}

/// The text shown for an error.
pub open spec fn error_message(e: GameErrorV) -> Seq<char> {
    match e {
        GameErrorV::UnknownName(name) => "no character named '"@ + name + "'"@,
        GameErrorV::Parse(why) => "parse error: "@ + why,
        GameErrorV::Fetch(why) => "fetch error: "@ + why,
    }
}

impl GameError {
    /// The text shown for the error.
    pub fn message(&self) -> (r: String)
        ensures
            r@ == error_message(self@),
    {
        match self {
            GameError::UnknownName(name) => {
                let mut m = String::from_str("no character named '");
                m.append(name.as_str());
                m.append("'");
                m
            },
            GameError::Parse(why) => {
                let mut m = String::from_str("parse error: ");
                m.append(why.as_str());
                m
            },
            GameError::Fetch(why) => {
                let mut m = String::from_str("fetch error: ");
                m.append(why.as_str());
                m
            },
        }
    }
}

/// The state of a game: the characters, what the player is typing, the
/// guesses made, whether the game is won, and the error shown, if any.
#[derive(Debug)]
pub struct Game {
    pub items: Vec<Item>,
    pub input: String,
    pub guesses: Vec<GuessResponse>,
    pub won: bool,
    pub error: Option<GameError>,
}

/// The mathematical model of a [`Game`].
pub struct GameV {
    pub items: Seq<ItemV>,
    pub input: Seq<char>,
    pub guesses: Seq<GuessResponseV>,
    pub won: bool,
    pub error: Option<GameErrorV>,
}

/// The model of an optional error.
pub open spec fn error_view(e: Option<GameError>) -> Option<GameErrorV> {
    match e {
        Some(x) => Some(x@),
        None => None,
    }
}

impl View for Game {
    type V = GameV;

    open spec fn view(&self) -> GameV {
        GameV {
            items: item_views(self.items@),
            input: self.input@,
            guesses: guess_views(self.guesses@),
            won: self.won,
            error: error_view(self.error),
        }
    }
}

/// The first character whose name matches `name` without regard to ASCII
/// case.
pub open spec fn find_named(items: Seq<ItemV>, name: Seq<char>) -> Option<ItemV>
    decreases items.len(),
{
    if items.len() == 0 {
        None
    } else if eq_ignore_ascii_case(items[0].name, name) {
        Some(items[0])
    } else {
        find_named(items.drop_first(), name)
    }
}

/// Some guess was of a character named `name`, without regard to ASCII case.
pub open spec fn already_guessed(guesses: Seq<GuessResponseV>, name: Seq<char>) -> bool {
    exists|i: int| 0 <= i < guesses.len() && eq_ignore_ascii_case(#[trigger] guesses[i].name, name)
}

/// Every field of the guess but its name is correct: the guess is the answer.
pub open spec fn all_correct(g: GuessResponseV) -> bool {
    forall|i: int|
        0 <= i < g.fields.len() && #[trigger] g.fields[i].field != "name"@ ==> g.fields[i].correct
            == Correctness::Correct
}

/// What submitting the text `raw` does: the new state and the id of the
/// character to ask the server about, if any. The text is trimmed; an empty
/// text does nothing; a name no character has sets the error; a character
/// guessed before does nothing; any other character clears the error and the
/// input and is asked about.
pub open spec fn submit_spec(g: GameV, raw: Seq<char>) -> (GameV, Option<u32>) {
    let name = trimmed(raw);
    if name.len() == 0 {
        (g, None)
    } else {
        match find_named(g.items, name) {
            None => (GameV { error: Some(GameErrorV::UnknownName(name)), ..g }, None),
            Some(target) => if already_guessed(g.guesses, target.name) {
                (g, None)
            } else {
                (GameV { error: None, input: Seq::empty(), ..g }, Some(target.id))
            },
        }
    }
}

/// What taking the server's judgement `resp` of a guess does: the guess is
/// listed, and the game is won when every field but the name is correct.
pub open spec fn receive_spec(g: GameV, resp: GuessResponseV) -> GameV {
    GameV { guesses: g.guesses.push(resp), won: g.won || all_correct(resp), ..g }
}

/// What starting a new round does: no guesses, not won, no error, nothing
/// typed; the characters stay.
pub open spec fn reset_spec(g: GameV) -> GameV {
    GameV { guesses: Seq::empty(), won: false, error: None, input: Seq::empty(), ..g }
}

/// Some earlier guess has the lowercase name `name_lc`.
pub open spec fn guessed_lowercase(guesses: Seq<GuessResponseV>, name_lc: Seq<char>) -> bool {
    exists|j: int| 0 <= j < guesses.len() && lowercase(#[trigger] guesses[j].name) == name_lc
}

/// A character is suggested for the query `q` when its lowercase name
/// contains `q` and it has not been guessed.
pub open spec fn suggestible(item: ItemV, q: Seq<char>, guesses: Seq<GuessResponseV>) -> bool {
    contains_text(lowercase(item.name), q) && !guessed_lowercase(guesses, lowercase(item.name))
}

/// The characters suggestible for `q`, in their order.
pub open spec fn suggestion_pool(items: Seq<ItemV>, q: Seq<char>, guesses: Seq<GuessResponseV>) -> Seq<ItemV>
    decreases items.len(),
{
    if items.len() == 0 {
        Seq::empty()
    } else {
        let rest = suggestion_pool(items.drop_last(), q, guesses);
        if suggestible(items.last(), q, guesses) {
            rest.push(items.last())
        } else {
            rest
        }
    }
}

/// The first eight elements of a list, or all of them when there are fewer.
pub open spec fn first_eight<A>(s: Seq<A>) -> Seq<A> {
    if s.len() <= 8 {
        s
    } else {
        s.take(8)
    }
}

/// The suggestions for what the player is typing: none for an empty query,
/// otherwise the first eight suggestible characters.
pub open spec fn suggestions_spec(g: GameV) -> Seq<ItemV> {
    let q = lowercase(g.input);
    if q.len() == 0 {
        Seq::empty()
    } else {
        first_eight(suggestion_pool(g.items, q, g.guesses))
    }
}

/// The text of a list element: a string as it is, anything else as JSON.
pub open spec fn element_display(v: JsonV) -> Seq<char> {
    match v {
        JsonV::Str(s) => s,
        _ => json_text(v),
    }
}

/// The elements of a list, shown and separated by `", "`.
pub open spec fn joined_display(items: Seq<JsonV>) -> Seq<char>
    decreases items.len(),
{
    if items.len() == 0 {
        Seq::empty()
    } else if items.len() == 1 {
        element_display(items[0])
    } else {
        joined_display(items.drop_last()) + ", "@ + element_display(items.last())
    }
}

/// How a value is shown: a string as it is, a number as its text, a list as
/// its elements joined, anything else as JSON.
pub open spec fn display_value(v: JsonV) -> Seq<char> {
    match v {
        JsonV::Str(s) => s,
        JsonV::Number(n) => number_text(n),
        JsonV::Array(a) => joined_display(a),
        _ => json_text(v),
    }
}

/// The text a value is shown with.
pub fn render_value(v: &Json) -> (r: String)
    ensures
        r@ == display_value(v@),
{
    match v {
        Json::String(s) => s.clone(),
        Json::Number(n) => n.text(),
        Json::Array(arr) => {
            proof {
                lemma_array_view(*v);
            }
            let ghost vs = views(arr@);
            let mut out = String::new();
            let mut i: usize = 0;
            while i < arr.len()
                invariant
                    0 <= i <= arr.len(),
                    vs == views(arr@),
                    out@ == joined_display(vs.take(i as int)),
                decreases arr.len() - i,
            {
                let t = match &arr[i] {
                    Json::String(s) => s.clone(),
                    other => other.text(),
                };
                if i > 0 {
                    out.append(", ");
                }
                out.append(t.as_str());
                proof {
                    assert(vs.take(i + 1).drop_last() =~= vs.take(i as int));
                    if i == 0 {
                        assert(vs.take(i as int) =~= Seq::<JsonV>::empty());
                    }
                }
                i += 1;
            }
            assert(vs.take(i as int) =~= vs);
            out
        },
        _ => v.text(),
    }
}

/// The style class a verdict is shown with, which is its name.
pub fn correctness_class(c: &Correctness) -> (r: &'static str)
    ensures
        r@ == c.wire_name_spec(),
{
    match c {
        Correctness::Correct => "correct",
        Correctness::PartiallyCorrect => "partiallycorrect",
        Correctness::Incorrect => "incorrect",
    }
}

/// One square of a guess row: its style class and its text.
#[derive(Debug)]
pub struct Square {
    pub class: String,
    pub text: String,
}

/// The mathematical model of a [`Square`].
pub struct SquareV {
    pub class: Seq<char>,
    pub text: Seq<char>,
}

impl View for Square {
    type V = SquareV;

    open spec fn view(&self) -> SquareV {
        SquareV { class: self.class@, text: self.text@ }
    }
}

/// The square of a field: class `square <verdict>`, the value's text.
pub open spec fn square_of(f: FieldComparisonV) -> SquareV {
    SquareV { class: "square "@ + f.correct.wire_name_spec(), text: display_value(f.value) }
}

/// The squares of a guess row: one per field but the name, in order.
pub open spec fn squares_of(fields: Seq<FieldComparisonV>) -> Seq<SquareV>
    decreases fields.len(),
{
    if fields.len() == 0 {
        Seq::empty()
    } else {
        let rest = squares_of(fields.drop_last());
        if fields.last().field != "name"@ {
            rest.push(square_of(fields.last()))
        } else {
            rest
        }
    }
}

/// The models of a list of squares.
pub open spec fn square_views(s: Seq<Square>) -> Seq<SquareV> {
    Seq::new(s.len(), |i: int| s[i]@)
}

/// The squares shown for a guess, after its name.
pub fn guess_squares(g: &GuessResponse) -> (r: Vec<Square>)
    ensures
        square_views(r@) == squares_of(g@.fields),
{
    let ghost fs = g@.fields;
    let mut out: Vec<Square> = Vec::new();
    let mut i: usize = 0;
    while i < g.fields.len()
        invariant
            0 <= i <= g.fields.len(),
            fs == g@.fields,
            fs.len() == g.fields.len(),
            square_views(out@) == squares_of(fs.take(i as int)),
        decreases g.fields.len() - i,
    {
        let f = &g.fields[i];
        assert(fs[i as int] == f@);
        assert(fs.take(i + 1).drop_last() =~= fs.take(i as int));
        if !crate::text::str_eq(f.field.as_str(), "name") {
            let mut class = String::from_str("square ");
            class.append(correctness_class(&f.correct));
            let text = render_value(&f.value);
            let ghost before = square_views(out@);
            out.push(Square { class, text });
            assert(square_views(out@) =~= before.push(square_of(f@)));
        }
        i += 1;
    }
    assert(fs.take(i as int) =~= fs);
    out
}

/// Whether the guess is the answer: every field but the name is correct.
pub fn is_winning(g: &GuessResponse) -> (r: bool)
    ensures
        r == all_correct(g@),
{
    let mut i: usize = 0;
    while i < g.fields.len()
        invariant
            0 <= i <= g.fields.len(),
            forall|j: int|
                0 <= j < i && #[trigger] g@.fields[j].field != "name"@ ==> g@.fields[j].correct
                    == Correctness::Correct,
        decreases g.fields.len() - i,
    {
        let f = &g.fields[i];
        assert(g@.fields[i as int] == f@);
        if !crate::text::str_eq(f.field.as_str(), "name") && f.correct != Correctness::Correct {
            assert(g@.fields[i as int].field != "name"@);
            return false;
        }
        i += 1;
    }
    true
}

/// Where the search for a character by name stands after looking at the
/// first `i` characters, none of which matches.
proof fn lemma_find_named_skip(items: Seq<ItemV>, name: Seq<char>, i: int)
    requires
        0 <= i <= items.len(),
        forall|j: int| 0 <= j < i ==> !eq_ignore_ascii_case(#[trigger] items[j].name, name),
    ensures
        find_named(items, name) == find_named(items.subrange(i, items.len() as int), name),
    decreases i,
{
    if i > 0 {
        assert forall|j: int| 0 <= j < i - 1 implies !eq_ignore_ascii_case(
            #[trigger] items.drop_first()[j].name,
            name,
        ) by {
            assert(items.drop_first()[j] == items[j + 1]);
        }
        lemma_find_named_skip(items.drop_first(), name, i - 1);
        assert(items.drop_first().subrange(i - 1, items.drop_first().len() as int)
            =~= items.subrange(i, items.len() as int));
    } else {
        assert(items.subrange(0, items.len() as int) =~= items);
    }
}

impl Game {
    /// A game with no characters, no guesses and no error.
    pub fn new() -> (r: Game)
        ensures
            r@.items.len() == 0,
            r@.input.len() == 0,
            r@.guesses.len() == 0,
            !r@.won,
            r@.error is None,
    {
        Game { items: Vec::new(), input: String::new(), guesses: Vec::new(), won: false, error: None }
    }

    /// Takes the list of characters the server sent.
    pub fn load_items(&mut self, items: Vec<Item>)
        ensures
            final(self)@ == (GameV { items: item_views(items@), ..old(self)@ }),
    {
        self.items = items;
    }

    /// Takes what the player typed.
    pub fn set_input(&mut self, input: String)
        ensures
            final(self)@ == (GameV { input: input@, ..old(self)@ }),
    {
        self.input = input;
    }

    /// Shows an error.
    pub fn report(&mut self, e: GameError)
        ensures
            final(self)@ == (GameV { error: Some(e@), ..old(self)@ }),
    {
        self.error = Some(e);
    }

    /// The position of the first character named `name`, ASCII case aside.
    fn find_named_index(&self, name: &str) -> (r: Option<usize>)
        ensures
            r matches Some(k) ==> k < self.items.len() && find_named(self@.items, name@) == Some(
                self@.items[k as int],
            ),
            r is None ==> find_named(self@.items, name@) is None,
    {
        let ghost its = self@.items;
        let mut i: usize = 0;
        while i < self.items.len()
            invariant
                0 <= i <= self.items.len(),
                its == self@.items,
                its.len() == self.items.len(),
                forall|j: int| 0 <= j < i ==> !eq_ignore_ascii_case(#[trigger] its[j].name, name@),
            decreases self.items.len() - i,
        {
            assert(its[i as int] == self.items[i as int]@);
            if crate::text::ascii_case_insensitive_eq(self.items[i].name.as_str(), name) {
                proof {
                    lemma_find_named_skip(its, name@, i as int);
                }
                return Some(i);
            }
            i += 1;
        }
        proof {
            lemma_find_named_skip(its, name@, i as int);
        }
        None
    }

    /// Whether some guess was of a character named `name`, ASCII case aside.
    fn guessed(&self, name: &str) -> (r: bool)
        ensures
            r == already_guessed(self@.guesses, name@),
    {
        let ghost gs = self@.guesses;
        let mut i: usize = 0;
        while i < self.guesses.len()
            invariant
                0 <= i <= self.guesses.len(),
                gs == self@.guesses,
                gs.len() == self.guesses.len(),
                forall|j: int| 0 <= j < i ==> !eq_ignore_ascii_case(#[trigger] gs[j].name, name@),
            decreases self.guesses.len() - i,
        {
            assert(gs[i as int] == self.guesses[i as int]@);
            if crate::text::ascii_case_insensitive_eq(self.guesses[i].name.as_str(), name) {
                assert(eq_ignore_ascii_case(gs[i as int].name, name@));
                return true;
            }
            i += 1;
        }
        false
    }

    /// Submits a guess by name. Returns the id of the character to ask the
    /// server about, if the guess is to be asked at all.
    pub fn submit(&mut self, raw_name: &str) -> (r: Option<u32>)
        ensures
            (final(self)@, r) == submit_spec(old(self)@, raw_name@),
    {
        let name = crate::text::trim_text(raw_name);
        if name.is_empty() {
            return None;
        }
        let k = match self.find_named_index(name) {
            Some(k) => k,
            None => {
                self.error = Some(GameError::UnknownName(String::from_str(name)));
                return None;
            },
        };
        let target_id = self.items[k].id;
        if self.guessed(self.items[k].name.as_str()) {
            return None;
        }
        self.error = None;
        self.input = String::new();
        Some(target_id)
    }

    /// Takes the server's judgement of a guess: the guess is listed, and the
    /// game is won when every field but the name is correct.
    pub fn receive(&mut self, g: GuessResponse)
        ensures
            final(self)@ == receive_spec(old(self)@, g@),
    {
        let win = is_winning(&g);
        let ghost before = self@.guesses;
        self.guesses.push(g);
        assert(guess_views(self.guesses@) =~= before.push(g@));
        if win {
            self.won = true;
        }
    }

    /// Starts a new round: no guesses, not won, no error, nothing typed.
    pub fn reset(&mut self)
        ensures
            final(self)@ == reset_spec(old(self)@),
    {
        self.guesses = Vec::new();
        self.won = false;
        self.error = None;
        self.input = String::new();
        assert(guess_views(self.guesses@) =~= Seq::<GuessResponseV>::empty());
    }

    /// Whether a lowercase name is among `lowered`.
    fn lowered_contains(lowered: &Vec<String>, name_lc: &String) -> (r: bool)
        ensures
            r == exists|j: int| 0 <= j < lowered.len() && (#[trigger] lowered[j])@ == name_lc@,
    {
        let mut i: usize = 0;
        while i < lowered.len()
            invariant
                0 <= i <= lowered.len(),
                forall|j: int| 0 <= j < i ==> (#[trigger] lowered[j])@ != name_lc@,
            decreases lowered.len() - i,
        {
            if lowered[i] == *name_lc {
                return true;
            }
            i += 1;
        }
        false
    }

    /// The characters to suggest for what the player is typing.
    pub fn suggestions(&self) -> (r: Vec<Item>)
        ensures
            item_views(r@) == suggestions_spec(self@),
    {
        let q = crate::text::to_lowercase(self.input.as_str());
        if q.as_str().is_empty() {
            let none: Vec<Item> = Vec::new();
            assert(item_views(none@) =~= Seq::<ItemV>::empty());
            return none;
        }
        let ghost gs = self@.guesses;
        let mut lowered: Vec<String> = Vec::new();
        let mut i: usize = 0;
        while i < self.guesses.len()
            invariant
                0 <= i <= self.guesses.len(),
                gs == self@.guesses,
                gs.len() == self.guesses.len(),
                lowered.len() == i,
                forall|j: int| 0 <= j < i ==> (#[trigger] lowered[j])@ == lowercase(gs[j].name),
            decreases self.guesses.len() - i,
        {
            assert(gs[i as int] == self.guesses[i as int]@);
            lowered.push(crate::text::to_lowercase(self.guesses[i].name.as_str()));
            i += 1;
        }
        let ghost its = self@.items;
        let mut out: Vec<Item> = Vec::new();
        let mut k: usize = 0;
        while k < self.items.len()
            invariant
                0 <= k <= self.items.len(),
                its == self@.items,
                its.len() == self.items.len(),
                gs == self@.guesses,
                lowered.len() == gs.len(),
                forall|j: int| 0 <= j < gs.len() ==> (#[trigger] lowered[j])@ == lowercase(gs[j].name),
                q@ == lowercase(self@.input),
                item_views(out@) == first_eight(suggestion_pool(its.take(k as int), q@, gs)),
            decreases self.items.len() - k,
        {
            let item = &self.items[k];
            assert(its[k as int] == item@);
            assert(its.take(k + 1).drop_last() =~= its.take(k as int));
            let name_lc = crate::text::to_lowercase(item.name.as_str());
            let hit = crate::text::contains(name_lc.as_str(), q.as_str());
            let seen = Self::lowered_contains(&lowered, &name_lc);
            proof {
                if seen {
                    let j = choose|j: int| 0 <= j < lowered.len() && (#[trigger] lowered[j])@ == name_lc@;
                    assert(lowercase(gs[j].name) == name_lc@);
                }
                if guessed_lowercase(gs, name_lc@) {
                    let j = choose|j: int| 0 <= j < gs.len() && lowercase(#[trigger] gs[j].name) == name_lc@;
                    assert(lowered[j]@ == name_lc@);
                }
            }
            let ghost pool = suggestion_pool(its.take(k as int), q@, gs);
            if hit && !seen {
                if out.len() < 8 {
                    let ghost before = item_views(out@);
                    out.push(item.duplicate());
                    assert(item_views(out@) =~= before.push(item@));
                    assert(first_eight(pool.push(item@)) =~= first_eight(pool).push(item@));
                } else {
                    assert(first_eight(pool.push(item@)) =~= first_eight(pool));
                }
            }
            k += 1;
        }
        assert(its.take(k as int) =~= its);
        out
    }
}

/// Guessing the answer wins the game: its response is correct on every field
/// but the name.
pub proof fn lemma_guessing_answer_wins(e: DotaEntryV)
    ensures
        all_correct(guess_response(e, e)),
{
    crate::server::lemma_answer_judged_correct(e);
}

/// The character found by name is one of the characters and has that name,
/// ASCII case aside.
pub proof fn lemma_find_named_found(items: Seq<ItemV>, name: Seq<char>)
    ensures
        find_named(items, name) matches Some(x) ==> items.contains(x) && eq_ignore_ascii_case(x.name, name),
    decreases items.len(),
{
    if items.len() > 0 && !eq_ignore_ascii_case(items[0].name, name) {
        lemma_find_named_found(items.drop_first(), name);
        if let Some(x) = find_named(items.drop_first(), name) {
            let k = choose|k: int| 0 <= k < items.drop_first().len() && items.drop_first()[k] == x;
            assert(items[k + 1] == x);
        }
    } else if items.len() > 0 {
        assert(items.contains(items[0]));
    }
}

/// Submitting never changes the characters, the guesses or whether the game
/// is won; when it asks the server about a character, that character bears
/// the submitted name (trimmed, ASCII case aside) and has not been guessed.
pub proof fn lemma_submit_asks_new_character(g: GameV, raw: Seq<char>)
    ensures
        submit_spec(g, raw).0.items == g.items,
        submit_spec(g, raw).0.guesses == g.guesses,
        submit_spec(g, raw).0.won == g.won,
        submit_spec(g, raw).1 matches Some(id) ==> exists|k: int|
            0 <= k < g.items.len() && (#[trigger] g.items[k]).id == id && eq_ignore_ascii_case(
                g.items[k].name,
                trimmed(raw),
            ) && !already_guessed(g.guesses, g.items[k].name),
{
    lemma_find_named_found(g.items, trimmed(raw));
}

/// Every suggested character is one of the characters, its lowercase name
/// contains the query, and it has not been guessed.
pub proof fn lemma_suggestion_pool(items: Seq<ItemV>, q: Seq<char>, guesses: Seq<GuessResponseV>)
    ensures
        suggestion_pool(items, q, guesses).len() <= items.len(),
        forall|i: int|
            0 <= i < suggestion_pool(items, q, guesses).len() ==> items.contains(
                #[trigger] suggestion_pool(items, q, guesses)[i],
            ) && suggestible(suggestion_pool(items, q, guesses)[i], q, guesses),
    decreases items.len(),
{
    if items.len() > 0 {
        let rest = items.drop_last();
        lemma_suggestion_pool(rest, q, guesses);
        let pool = suggestion_pool(items, q, guesses);
        assert forall|i: int| 0 <= i < pool.len() implies items.contains(#[trigger] pool[i])
            && suggestible(pool[i], q, guesses) by {
            let rp = suggestion_pool(rest, q, guesses);
            if i < rp.len() {
                assert(pool[i] == rp[i]);
                let k = choose|k: int| 0 <= k < rest.len() && rest[k] == rp[i];
                assert(items[k] == rest[k]);
            } else {
                assert(pool[i] == items.last());
                assert(items[items.len() - 1] == items.last());
            }
        }
    }
}

/// At most eight characters are suggested, each one of the characters, its
/// lowercase name containing the lowercase query, and not guessed yet.
pub proof fn lemma_suggestions_valid(g: GameV)
    ensures
        suggestions_spec(g).len() <= 8,
        forall|i: int|
            0 <= i < suggestions_spec(g).len() ==> g.items.contains(#[trigger] suggestions_spec(g)[i])
                && contains_text(lowercase(suggestions_spec(g)[i].name), lowercase(g.input))
                && !guessed_lowercase(g.guesses, lowercase(suggestions_spec(g)[i].name)),
{
    let q = lowercase(g.input);
    lemma_suggestion_pool(g.items, q, g.guesses);
    let pool = suggestion_pool(g.items, q, g.guesses);
    if q.len() > 0 {
        assert forall|i: int| 0 <= i < suggestions_spec(g).len() implies g.items.contains(
            #[trigger] suggestions_spec(g)[i],
        ) && suggestible(suggestions_spec(g)[i], q, g.guesses) by {
            assert(suggestions_spec(g)[i] == pool[i]);
        }
    }
}

/// A won game stays won whatever is submitted or received, until a new
/// round starts; receiving the judgement of the answer itself wins.
pub proof fn lemma_won_is_kept(g: GameV, raw: Seq<char>, resp: GuessResponseV, answer: DotaEntryV)
    ensures
        g.won ==> submit_spec(g, raw).0.won,
        g.won ==> receive_spec(g, resp).won,
        receive_spec(g, guess_response(answer, answer)).won,
        !reset_spec(g).won,
        reset_spec(g).guesses.len() == 0,
{
    lemma_guessing_answer_wins(answer);
}

/// A judged guess wins exactly when no field other than the name, at any
/// position, has a verdict other than correct: one such field leaves the
/// game as it was, and without one the game is won.
pub proof fn lemma_win_needs_every_field(g: GameV, resp: GuessResponseV)
    ensures
        (exists|i: int|
            0 <= i < resp.fields.len() && resp.fields[i].field != "name"@ && (#[trigger] resp.fields[i]).correct
                != Correctness::Correct) ==> receive_spec(g, resp).won == g.won,
        (forall|i: int|
            0 <= i < resp.fields.len() && resp.fields[i].field != "name"@ ==> (#[trigger] resp.fields[i]).correct
                == Correctness::Correct) ==> receive_spec(g, resp).won,
        receive_spec(g, resp).guesses == g.guesses.push(resp),
        all_correct(resp) <==> forall|i: int|
            0 <= i < resp.fields.len() && resp.fields[i].field != "name"@ ==> (#[trigger] resp.fields[i]).correct
                == Correctness::Correct,
{
    if exists|i: int|
        0 <= i < resp.fields.len() && resp.fields[i].field != "name"@ && (#[trigger] resp.fields[i]).correct
            != Correctness::Correct {
        let i = choose|i: int|
            0 <= i < resp.fields.len() && resp.fields[i].field != "name"@ && (#[trigger] resp.fields[i]).correct
                != Correctness::Correct;
        assert(!all_correct(resp));
    }
}

/// The characters suggestible for the lowercase query `q`: those whose
/// lowercase name contains `q` and that no guess names.
pub open spec fn wanted(items: Seq<ItemV>, q: Seq<char>, guesses: Seq<GuessResponseV>) -> Seq<ItemV> {
    items.filter(
        |it: ItemV|
            contains_text(lowercase(it.name), q) && !(exists|j: int|
                0 <= j < guesses.len() && lowercase(#[trigger] guesses[j].name) == lowercase(it.name)),
    )
}

proof fn lemma_pool_is_filter(items: Seq<ItemV>, q: Seq<char>, guesses: Seq<GuessResponseV>)
    ensures
        suggestion_pool(items, q, guesses) == wanted(items, q, guesses),
    decreases items.len(),
{
    reveal(Seq::filter);
    if items.len() > 0 {
        lemma_pool_is_filter(items.drop_last(), q, guesses);
    }
}

/// The suggestions are exactly the first eight characters, in order, whose
/// lowercase name contains the lowercase input and that have not been
/// guessed; none when the input is empty.
pub proof fn lemma_suggestions_exact(g: GameV)
    ensures
        lowercase(g.input).len() == 0 ==> suggestions_spec(g).len() == 0,
        lowercase(g.input).len() > 0 ==> suggestions_spec(g) == wanted(g.items, lowercase(g.input), g.guesses).take(
            if wanted(g.items, lowercase(g.input), g.guesses).len() < 8 {
                wanted(g.items, lowercase(g.input), g.guesses).len() as int
            } else {
                8
            },
        ),
{
    lemma_pool_is_filter(g.items, lowercase(g.input), g.guesses);
    let w = wanted(g.items, lowercase(g.input), g.guesses);
    if w.len() <= 8 {
        assert(w.take(w.len() as int) =~= w);
    }
}

/// The rows of a judged guess: the fields other than the name, in order.
pub open spec fn shown_fields(fields: Seq<FieldComparisonV>) -> Seq<FieldComparisonV> {
    fields.filter(|f: FieldComparisonV| f.field != "name"@)
}

/// Each square of a guess row belongs to a field other than the name, in
/// order; its class is `square ` followed by that field's own verdict's name,
/// and its text is how the field's value is shown.
pub proof fn lemma_squares_follow_verdicts(fields: Seq<FieldComparisonV>)
    ensures
        squares_of(fields).len() == shown_fields(fields).len(),
        forall|i: int|
            0 <= i < squares_of(fields).len() ==> (#[trigger] squares_of(fields)[i]).class == "square "@
                + shown_fields(fields)[i].correct.wire_name_spec() && squares_of(fields)[i].text
                == display_value(shown_fields(fields)[i].value),
    decreases fields.len(),
{
    reveal(Seq::filter);
    if fields.len() > 0 {
        lemma_squares_follow_verdicts(fields.drop_last());
        let rest = squares_of(fields.drop_last());
        let sr = shown_fields(fields.drop_last());
        assert(shown_fields(fields) == if fields.last().field != "name"@ {
            sr.push(fields.last())
        } else {
            sr
        });
        assert forall|i: int| 0 <= i < squares_of(fields).len() implies (#[trigger] squares_of(fields)[i]).class
            == "square "@ + shown_fields(fields)[i].correct.wire_name_spec() && squares_of(fields)[i].text
            == display_value(shown_fields(fields)[i].value) by {
            if i < rest.len() {
                assert(squares_of(fields)[i] == rest[i]);
                assert(shown_fields(fields)[i] == sr[i]);
            }
        }
    }
}

} // verus!
