//! Field names: from the client's capitalised word boundaries to the
//! store's underscores.

use vstd::prelude::*;
use crate::json::{Json, JsonV, Members, lemma_object_view, member_views, put, put_member};
use crate::text::{chars_of, str_eq, string_of};

verus! {

/// What `char::is_uppercase` says of a character.
pub uninterp spec fn char_is_uppercase(c: char) -> bool;

/// The first character of what `char::to_lowercase` yields for a character.
pub uninterp spec fn char_lowercase(c: char) -> char;

/// `char::is_uppercase` of the standard library: whether the character has
/// the Unicode property `Uppercase`.
#[verifier::external_body]
pub(crate) fn is_uppercase(c: char) -> (r: bool)
    ensures
        r == char_is_uppercase(c),
{
    c.is_uppercase()
}

/// `char::to_lowercase` of the standard library, of which the first
/// character is taken: the iterator yields at least one.
#[verifier::external_body]
pub(crate) fn lowercase(c: char) -> (r: char)
    ensures
        r == char_lowercase(c),
{
    c.to_lowercase().next().unwrap_or(c)
}

/// A character with what the standard library says of its case.
#[derive(Clone, Copy, Debug, PartialEq, Eq, Structural)]
pub struct CaseMark {
    /// The character.
    pub c: char,
    /// Whether it is upper case.
    pub upper: bool,
    /// Its lower-case form.
    pub lowered: char,
}

impl CaseMark {
    /// The mark of a character with the given case.
    pub fn new(c: char, upper: bool, lowered: char) -> (r: CaseMark)
        ensures
            r == (CaseMark { c, upper, lowered }),
    {
        CaseMark { c, upper, lowered }
    }
}

/// What a character at the start (`first`) or further on in a name
/// becomes: an upper-case character is lowered, after an underscore unless
/// it starts the name; any other character stays.
pub open spec fn snake_piece(first: bool, mark: CaseMark) -> Seq<char> {
    if mark.upper {
        if first {
            seq![mark.lowered]
        } else {
            seq!['_', mark.lowered]
        }
    } else {
        seq![mark.c]
    }
}

/// The underscore form of a name, given the case of its characters.
pub open spec fn snake_marks(marks: Seq<CaseMark>) -> Seq<char>
    decreases marks.len(),
{
    if marks.len() == 0 {
        Seq::empty()
    } else {
        snake_marks(marks.drop_last()) + snake_piece(marks.len() == 1, marks.last())
    }
}

/// A character with its case.
pub open spec fn mark_of(c: char) -> CaseMark {
    CaseMark { c, upper: char_is_uppercase(c), lowered: char_lowercase(c) }
}

/// The characters of a name with their case.
pub open spec fn marks_of(name: Seq<char>) -> Seq<CaseMark> {
    Seq::new(name.len(), |i: int| mark_of(name[i]))
}

/// The underscore form of a name.
pub open spec fn snake_case(name: Seq<char>) -> Seq<char> {
    snake_marks(marks_of(name))
}

/// Looks up the case of every character of a name.
pub fn mark_case(s: &str) -> (r: Vec<CaseMark>)
    ensures
        r@ == marks_of(s@),
{
    let chars = chars_of(s);
    let mut marks: Vec<CaseMark> = Vec::new();
    let mut i: usize = 0;
    while i < chars.len()
        invariant
            i <= chars.len(),
            chars@ == s@,
            marks@.len() == i,
            forall|j: int| 0 <= j < i ==> marks@[j] == marks_of(s@)[j],
        decreases chars.len() - i,
    {
        let c = chars[i];
        let upper = is_uppercase(c);
        let lowered = lowercase(c);
        marks.push(CaseMark::new(c, upper, lowered));
        i += 1;
    }
    assert(marks@ =~= marks_of(s@));
    marks
}

/// Spells the underscore form of a name from the case of its characters.
pub fn snake_case_of(marks: &Vec<CaseMark>) -> (r: String)
    ensures
        r@ == snake_marks(marks@),
{
    let mut result: Vec<char> = Vec::new();
    let mut i: usize = 0;
    assert(marks@.take(0) =~= Seq::empty());
    while i < marks.len()
        invariant
            i <= marks.len(),
            result@ == snake_marks(marks@.take(i as int)),
        decreases marks.len() - i,
    {
        let mark = marks[i];
        assert(marks@.take(i + 1).drop_last() =~= marks@.take(i as int));
        if mark.upper {
            if i > 0 {
                result.push('_');
            }
            result.push(mark.lowered);
        } else {
            result.push(mark.c);
        }
        assert(result@ =~= snake_marks(marks@.take(i as int)) + snake_piece(i == 0, mark));
        i += 1;
    }
    assert(marks@.take(i as int) =~= marks@);
    string_of(&result)
}

/// Converts a name from capitalised word boundaries to underscores:
/// `createdAt` becomes `created_at`.
pub fn to_snake_case(s: &str) -> (r: String)
    ensures
        r@ == snake_case(s@),
{
    snake_case_of(&mark_case(s))
}

/// The members with every name in underscore form. Where two names come to
/// the same form, the later member's value takes the earlier one's place.
pub open spec fn snake_members(members: Members) -> Members
    decreases members.len(),
{
    if members.len() == 0 {
        Seq::empty()
    } else {
        put(snake_members(members.drop_last()), snake_case(members.last().0), members.last().1)
    }
}

/// The members of an object with their names in underscore form and their
/// values as they were. A value that is no object is refused.
pub fn keys_to_snake_case(obj: &Json) -> (r: Result<Vec<(String, Json)>, String>)
    ensures
        match obj@ {
            JsonV::Object(members) => r is Ok && member_views(r->Ok_0@) == snake_members(members),
            _ => r is Err && r->Err_0@ == "Payload must be an object"@,
        },
{
    let map = match obj {
        Json::Object(map) => map,
        _ => {
            return Err("Payload must be an object".to_owned());
        },
    };
    proof {
        lemma_object_view(*map);
    }
    let ghost members = member_views(map@);
    let mut result: Vec<(String, Json)> = Vec::new();
    let mut i: usize = 0;
    assert(members.take(0) =~= Seq::empty());
    assert(member_views(result@) =~= Seq::empty());
    while i < map.len()
        invariant
            i <= map.len(),
            members == member_views(map@),
            member_views(result@) == snake_members(members.take(i as int)),
        decreases map.len() - i,
    {
        assert(members.take(i + 1).drop_last() =~= members.take(i as int));
        let snake_key = to_snake_case(map[i].0.as_str());
        put_member(&mut result, snake_key, map[i].1.duplicate());
        i += 1;
    }
    assert(members.take(i as int) =~= members);
    Ok(result)
}

/// Whether a column holds an opaque structured value, whatever shape the
/// value has. The values of these columns, as those of all others, pass key
/// normalisation as they are.
pub open spec fn is_structured_column(column: Seq<char>) -> bool {
    ||| column == "core_field_config"@
    ||| column == "custom_fields"@
    ||| column == "metadata"@
    ||| column == "authors"@
    ||| column == "geometry"@
    ||| column == "style"@
    ||| column == "avatar_crop_region"@
    ||| column == "points"@
    ||| column == "bounding_box"@
}

/// Tests a column name against the list of the structured columns.
pub fn names_structured_column(column: &str) -> (r: bool)
    ensures
        r == is_structured_column(column@),
{
    str_eq(column, "core_field_config") || str_eq(column, "custom_fields") || str_eq(
        column,
        "metadata",
    ) || str_eq(column, "authors") || str_eq(column, "geometry") || str_eq(column, "style")
        || str_eq(column, "avatar_crop_region") || str_eq(column, "points") || str_eq(
        column,
        "bounding_box",
    )
}

} // verus!
