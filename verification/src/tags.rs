//! The metadata segment that may lead a line: `key=value` pairs separated
//! by `;`.

use crate::text::{chars_of, find_char, first_index, split_from, split_on, texts};
use vstd::hash_map::StringHashMap;
use vstd::prelude::*;
use vstd::string::*;

verus! {

/// The key of one segment: what stands before its first `=`, or all of it.
pub open spec fn tag_key(segment: Seq<char>) -> Seq<char> {
    segment.subrange(0, first_index(segment, '=', 0))
}

/// The value of one segment: what stands after its first `=`, or nothing.
pub open spec fn tag_value(segment: Seq<char>) -> Seq<char> {
    let at = first_index(segment, '=', 0);
    if 0 <= at < segment.len() {
        segment.subrange(at + 1, segment.len() as int)
    } else {
        Seq::empty()
    }
}

/// The mapping that a run of segments gives. A key that occurs again takes
/// the later value.
pub open spec fn tags_of_segments(segments: Seq<Seq<char>>) -> Map<Seq<char>, Seq<char>>
    decreases segments.len(),
{
    if segments.len() == 0 {
        Map::empty()
    } else {
        tags_of_segments(segments.drop_last()).insert(
            tag_key(segments.last()),
            tag_value(segments.last()),
        )
    }
}

/// The mapping that a tags segment encodes.
pub open spec fn tag_map(tags: Seq<char>) -> Map<Seq<char>, Seq<char>> {
    tags_of_segments(split_on(tags, ';'))
}

/// A map of strings with each value taken by its contents.
pub open spec fn tag_values(tags: Map<Seq<char>, String>) -> Map<Seq<char>, Seq<char>> {
    Map::new(|key: Seq<char>| tags.contains_key(key), |key: Seq<char>| tags[key]@)
}

/// Reads a tags segment into a map from key to value. Never fails: a segment
/// without `=` has an empty value.
pub fn parse_tags(tags_string: &str) -> (tags: StringHashMap<String>)
    ensures
        tag_values(tags@) == tag_map(tags_string@),
{
    let chars: Vec<char> = chars_of(tags_string);
    let segments: Vec<String> = split_from(tags_string, &chars, 0, ';');
    proof {
        assert(chars@.subrange(0, chars.len() as int) =~= tags_string@);
    }
    let mut tags: StringHashMap<String> = StringHashMap::new();
    let mut i: usize = 0;
    proof {
        assert(tag_values(tags@) =~= tags_of_segments(texts(segments@).take(0)));
    }
    while i < segments.len()
        invariant
            i <= segments.len(),
            tag_values(tags@) == tags_of_segments(texts(segments@).take(i as int)),
        decreases segments.len() - i,
    {
        let segment: &str = segments[i].as_str();
        let letters: Vec<char> = chars_of(segment);
        let at: usize = find_char(&letters, '=', 0);
        let key: String = segment.substring_char(0, at).to_owned();
        let value: String = if at < letters.len() {
            segment.substring_char(at + 1, letters.len()).to_owned()
        } else {
            String::new()
        };
        let ghost before = tags@;
        tags.insert(key, value);
        proof {
            let done = texts(segments@).take(i + 1);
            assert(done.drop_last() =~= texts(segments@).take(i as int));
            assert(done.last() == segment@);
            assert(tag_values(tags@) =~= tag_values(before).insert(key@, value@));
        }
        i += 1;
    }
    proof {
        assert(texts(segments@).take(segments.len() as int) =~= texts(segments@));
    }
    tags
}

} // verus!
