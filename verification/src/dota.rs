//! Dota characters: their attributes and the entry of a profile that
//! describes one, with the fields a guess is compared on.
use vstd::prelude::*;
use vstd::string::StringExecFns;
use crate::json::{Json, JsonV, member, views};

verus! {

/// A character's primary attribute.
#[derive(Debug, Clone, Copy, PartialEq, Eq, Structural)]
pub enum DotaAttribute {
    Strength,
    Agility,
    Intelligence,
    Universal,
}

/// A role a character is played in.
#[derive(Debug, Clone, Copy, PartialEq, Eq, Structural)]
pub enum DotaPosition {
    Carry,
    Midlane,
    Offlane,
    SoftSupport,
    HardSupport,
}

/// How a character attacks.
#[derive(Debug, Clone, Copy, PartialEq, Eq, Structural)]
pub enum DotaAttackType {
    Melee,
    Ranged,
    Both,
}

impl DotaAttribute {
    /// The name the attribute has in a profile: its variant in lower case.
    pub open spec fn wire_name_spec(self) -> Seq<char> {
        match self {
            DotaAttribute::Strength => "strength"@,
            DotaAttribute::Agility => "agility"@,
            DotaAttribute::Intelligence => "intelligence"@,
            DotaAttribute::Universal => "universal"@,
        }
    }

    /// The name the attribute has in a profile.
    pub fn wire_name(&self) -> (r: &'static str)
        ensures
            r@ == self.wire_name_spec(),
    {
        match self {
            DotaAttribute::Strength => "strength",
            DotaAttribute::Agility => "agility",
            DotaAttribute::Intelligence => "intelligence",
            DotaAttribute::Universal => "universal",
        }
    }
}

impl DotaPosition {
    /// The name the position has in a profile: its variant in lower case.
    pub open spec fn wire_name_spec(self) -> Seq<char> {
        match self {
            DotaPosition::Carry => "carry"@,
            DotaPosition::Midlane => "midlane"@,
            DotaPosition::Offlane => "offlane"@,
            DotaPosition::SoftSupport => "softsupport"@,
            DotaPosition::HardSupport => "hardsupport"@,
        }
    }

    /// The name the position has in a profile.
    pub fn wire_name(&self) -> (r: &'static str)
        ensures
            r@ == self.wire_name_spec(),
    {
        match self {
            DotaPosition::Carry => "carry",
            DotaPosition::Midlane => "midlane",
            DotaPosition::Offlane => "offlane",
            DotaPosition::SoftSupport => "softsupport",
            DotaPosition::HardSupport => "hardsupport",
        }
    }
}

impl DotaAttackType {
    /// The name the attack type has in a profile: its variant in lower case.
    pub open spec fn wire_name_spec(self) -> Seq<char> {
        match self {
            DotaAttackType::Melee => "melee"@,
            DotaAttackType::Ranged => "ranged"@,
            DotaAttackType::Both => "both"@,
        }
    }

    /// The name the attack type has in a profile.
    pub fn wire_name(&self) -> (r: &'static str)
        ensures
            r@ == self.wire_name_spec(),
    {
        match self {
            DotaAttackType::Melee => "melee",
            DotaAttackType::Ranged => "ranged",
            DotaAttackType::Both => "both",
        }
    }
}

/// One character of a profile.
#[derive(Debug)]
pub struct DotaEntry {
    pub id: Json,
    pub name: Json,
    pub attribute: DotaAttribute,
    pub position: Vec<DotaPosition>,
    pub attack_type: DotaAttackType,
    pub release_year: Json,
}

/// The mathematical model of a [`DotaEntry`].
pub struct DotaEntryV {
    pub id: JsonV,
    pub name: JsonV,
    pub attribute: DotaAttribute,
    pub position: Seq<DotaPosition>,
    pub attack_type: DotaAttackType,
    pub release_year: JsonV,
}

impl View for DotaEntry {
    type V = DotaEntryV;

    open spec fn view(&self) -> DotaEntryV {
        DotaEntryV {
            id: self.id@,
            name: self.name@,
            attribute: self.attribute,
            position: self.position@,
            attack_type: self.attack_type,
            release_year: self.release_year@,
        }
    }
}

/// The JSON form of a list of positions: the array of their names.
pub open spec fn positions_json(ps: Seq<DotaPosition>) -> Seq<JsonV> {
    Seq::new(ps.len(), |i: int| JsonV::Str(ps[i].wire_name_spec()))
}

/// The fields of an entry that a guess is compared on, in their order, with
/// their JSON values. The id is not among them.
pub open spec fn entry_fields(e: DotaEntryV) -> Seq<(Seq<char>, JsonV)> {
    seq![
        ("name"@, e.name),
        ("attribute"@, JsonV::Str(e.attribute.wire_name_spec())),
        ("position"@, JsonV::Array(positions_json(e.position))),
        ("attack_type"@, JsonV::Str(e.attack_type.wire_name_spec())),
        ("release_year"@, e.release_year),
    ]
}

/// The models of a list of named fields.
pub open spec fn field_views(s: Seq<(&'static str, Json)>) -> Seq<(Seq<char>, JsonV)> {
    Seq::new(s.len(), |i: int| (s[i].0@, s[i].1@))
}

impl DotaEntry {
    /// The fields a guess is compared on, each with its name and JSON value.
    pub fn fields(&self) -> (r: Vec<(&'static str, Json)>)
        ensures
            field_views(r@) == entry_fields(self@),
    {
        let mut positions: Vec<Json> = Vec::new();
        let mut i: usize = 0;
        while i < self.position.len()
            invariant
                0 <= i <= self.position.len(),
                positions.len() == i,
                forall|j: int|
                    0 <= j < i ==> positions[j]@ == JsonV::Str(
                        #[trigger] self.position[j].wire_name_spec(),
                    ),
            decreases self.position.len() - i,
        {
            positions.push(Json::String(String::from_str(self.position[i].wire_name())));
            i += 1;
        }
        assert(views(positions@) =~= positions_json(self.position@));
        let position = Json::Array(positions);
        proof {
            crate::json::lemma_array_view(position);
        }
        let r = vec![
            ("name", self.name.duplicate()),
            ("attribute", Json::String(String::from_str(self.attribute.wire_name()))),
            ("position", position),
            ("attack_type", Json::String(String::from_str(self.attack_type.wire_name()))),
            ("release_year", self.release_year.duplicate()),
        ];
        assert(field_views(r@) =~= entry_fields(self@));
        r
    }

    /// The value of the field named `key`, among those a guess is compared
    /// on; `None` for any other key.
    pub fn get(&self, key: &str) -> (r: Option<Json>)
        ensures
            r is None <==> member(entry_fields(self@), key@) is None,
            r matches Some(x) ==> member(entry_fields(self@), key@) == Some(x@),
    {
        let mut fields = self.fields();
        let ghost fs = field_views(fields@);
        let mut i: usize = 0;
        while i < fields.len()
            invariant
                0 <= i <= fields.len(),
                fs == field_views(fields@),
                fs == entry_fields(self@),
                forall|j: int| 0 <= j < i ==> fs[j].0 != key@,
            decreases fields.len() - i,
        {
            if crate::text::str_eq(fields[i].0, key) {
                proof {
                    crate::json::lemma_member_skip(fs, key@, i as int);
                }
                let (_, value) = fields.remove(i);
                return Some(value);
            }
            i += 1;
        }
        proof {
            crate::json::lemma_member_skip(fs, key@, i as int);
        }
        None
    }
}

/// Looking a field up by its name gives the field's value, for each of the
/// fields a guess is compared on; any other name gives nothing.
pub proof fn lemma_entry_field_lookup(e: DotaEntryV, key: Seq<char>)
    ensures
        forall|i: int|
            0 <= i < entry_fields(e).len() ==> member(entry_fields(e), #[trigger] entry_fields(e)[i].0)
                == Some(entry_fields(e)[i].1),
        (forall|i: int| 0 <= i < entry_fields(e).len() ==> #[trigger] entry_fields(e)[i].0 != key)
            ==> member(entry_fields(e), key) is None,
{
    reveal_strlit("name");
    reveal_strlit("attribute");
    reveal_strlit("position");
    reveal_strlit("attack_type");
    reveal_strlit("release_year");
    let fs = entry_fields(e);
    assert(fs.drop_first() =~= seq![fs[1], fs[2], fs[3], fs[4]]);
    assert(fs.drop_first().drop_first() =~= seq![fs[2], fs[3], fs[4]]);
    assert(fs.drop_first().drop_first().drop_first() =~= seq![fs[3], fs[4]]);
    assert(fs.drop_first().drop_first().drop_first().drop_first() =~= seq![fs[4]]);
    assert(fs.drop_first().drop_first().drop_first().drop_first().drop_first() =~= Seq::<
        (Seq<char>, JsonV),
    >::empty());
    assert(fs[0].0.len() == 4);
    assert(fs[1].0.len() == 9);
    assert(fs[2].0.len() == 8);
    assert(fs[3].0.len() == 11);
    assert(fs[4].0.len() == 12);
    assert(fs[0].0 != fs[1].0);
    assert(fs[0].0 != fs[2].0);
    assert(fs[0].0 != fs[3].0);
    assert(fs[0].0 != fs[4].0);
    assert(fs[1].0 != fs[2].0);
    assert(fs[1].0 != fs[3].0);
    assert(fs[1].0 != fs[4].0);
    assert(fs[2].0 != fs[3].0);
    assert(fs[2].0 != fs[4].0);
    assert(fs[3].0 != fs[4].0);
    reveal_with_fuel(member, 6);
    assert(member(fs, fs[0].0) == Some(fs[0].1));
    assert(member(fs, fs[1].0) == Some(fs[1].1));
    assert(member(fs, fs[2].0) == Some(fs[2].1));
    assert(member(fs, fs[3].0) == Some(fs[3].1));
    assert(member(fs, fs[4].0) == Some(fs[4].1));
}

/// Each attribute is written as its own variant name in lower case, so
/// different attributes are written differently.
pub proof fn lemma_attribute_names(a: DotaAttribute, b: DotaAttribute)
    ensures
        DotaAttribute::Strength.wire_name_spec() =~= seq!['s', 't', 'r', 'e', 'n', 'g', 't', 'h'],
        DotaAttribute::Agility.wire_name_spec() =~= seq!['a', 'g', 'i', 'l', 'i', 't', 'y'],
        DotaAttribute::Intelligence.wire_name_spec() =~= seq![
            'i', 'n', 't', 'e', 'l', 'l', 'i', 'g', 'e', 'n', 'c', 'e',
        ],
        DotaAttribute::Universal.wire_name_spec() =~= seq!['u', 'n', 'i', 'v', 'e', 'r', 's', 'a', 'l'],
        a.wire_name_spec() == b.wire_name_spec() <==> a == b,
{
    reveal_strlit("strength");
    reveal_strlit("agility");
    reveal_strlit("intelligence");
    reveal_strlit("universal");
    assert(DotaAttribute::Strength.wire_name_spec() =~= seq!['s', 't', 'r', 'e', 'n', 'g', 't', 'h']);
    assert(DotaAttribute::Agility.wire_name_spec() =~= seq!['a', 'g', 'i', 'l', 'i', 't', 'y']);
    assert(DotaAttribute::Intelligence.wire_name_spec() =~= seq![
        'i', 'n', 't', 'e', 'l', 'l', 'i', 'g', 'e', 'n', 'c', 'e',
    ]);
    assert(DotaAttribute::Universal.wire_name_spec() =~= seq!['u', 'n', 'i', 'v', 'e', 'r', 's', 'a', 'l']);
    if a != b {
        assert(a.wire_name_spec()[0] != b.wire_name_spec()[0] || a.wire_name_spec().len()
            != b.wire_name_spec().len());
    }
}

/// Each position is written as its own variant name in lower case, so
/// different positions are written differently.
pub proof fn lemma_position_names(a: DotaPosition, b: DotaPosition)
    ensures
        DotaPosition::Carry.wire_name_spec() =~= seq!['c', 'a', 'r', 'r', 'y'],
        DotaPosition::Midlane.wire_name_spec() =~= seq!['m', 'i', 'd', 'l', 'a', 'n', 'e'],
        DotaPosition::Offlane.wire_name_spec() =~= seq!['o', 'f', 'f', 'l', 'a', 'n', 'e'],
        DotaPosition::SoftSupport.wire_name_spec() =~= seq![
            's', 'o', 'f', 't', 's', 'u', 'p', 'p', 'o', 'r', 't',
        ],
        DotaPosition::HardSupport.wire_name_spec() =~= seq![
            'h', 'a', 'r', 'd', 's', 'u', 'p', 'p', 'o', 'r', 't',
        ],
        a.wire_name_spec() == b.wire_name_spec() <==> a == b,
{
    reveal_strlit("carry");
    reveal_strlit("midlane");
    reveal_strlit("offlane");
    reveal_strlit("softsupport");
    reveal_strlit("hardsupport");
    assert(DotaPosition::Carry.wire_name_spec() =~= seq!['c', 'a', 'r', 'r', 'y']);
    assert(DotaPosition::Midlane.wire_name_spec() =~= seq!['m', 'i', 'd', 'l', 'a', 'n', 'e']);
    assert(DotaPosition::Offlane.wire_name_spec() =~= seq!['o', 'f', 'f', 'l', 'a', 'n', 'e']);
    assert(DotaPosition::SoftSupport.wire_name_spec() =~= seq![
        's', 'o', 'f', 't', 's', 'u', 'p', 'p', 'o', 'r', 't',
    ]);
    assert(DotaPosition::HardSupport.wire_name_spec() =~= seq![
        'h', 'a', 'r', 'd', 's', 'u', 'p', 'p', 'o', 'r', 't',
    ]);
    if a != b {
        assert(a.wire_name_spec()[0] != b.wire_name_spec()[0] || a.wire_name_spec().len()
            != b.wire_name_spec().len());
    }
}

/// Each attack type is written as its own variant name in lower case, so
/// different attack types are written differently.
pub proof fn lemma_attack_type_names(a: DotaAttackType, b: DotaAttackType)
    ensures
        DotaAttackType::Melee.wire_name_spec() =~= seq!['m', 'e', 'l', 'e', 'e'],
        DotaAttackType::Ranged.wire_name_spec() =~= seq!['r', 'a', 'n', 'g', 'e', 'd'],
        DotaAttackType::Both.wire_name_spec() =~= seq!['b', 'o', 't', 'h'],
        a.wire_name_spec() == b.wire_name_spec() <==> a == b,
{
    reveal_strlit("melee");
    reveal_strlit("ranged");
    reveal_strlit("both");
    assert(DotaAttackType::Melee.wire_name_spec() =~= seq!['m', 'e', 'l', 'e', 'e']);
    assert(DotaAttackType::Ranged.wire_name_spec() =~= seq!['r', 'a', 'n', 'g', 'e', 'd']);
    assert(DotaAttackType::Both.wire_name_spec() =~= seq!['b', 'o', 't', 'h']);
    if a != b {
        assert(a.wire_name_spec()[0] != b.wire_name_spec()[0]);
    }
}

} // verus!
