//! Rendering stream tags for the media layer: a tag list becomes the single
//! string the output pipeline's tag injector accepts. The media layer hands
//! the tags over as plain names and rendered values.

use vstd::prelude::*;
use vstd::string::StringExecFns;
use crate::text::join_sep;
use crate::text::join_with_sep;

verus! {

/// The reserved name under which a tag list nests itself; such an entry is
/// not a tag and is skipped.
pub open spec fn taglist_name() -> Seq<char> {
    seq!['t', 'a', 'g', 'l', 'i', 's', 't']
}

/// One rendered tag: the name, an equals sign, and the comma-joined values.
pub open spec fn spec_tag_entry(name: Seq<char>, values: Seq<Seq<char>>) -> Seq<char> {
    name + seq!['='] + join_sep(values, seq![','])
}

/// The rendered parts of a tag list, in order, with nested-list entries
/// skipped.
pub open spec fn spec_tag_parts(tags: Seq<(Seq<char>, Seq<Seq<char>>)>) -> Seq<Seq<char>>
    decreases tags.len(),
{
    if tags.len() == 0 {
        Seq::<Seq<char>>::empty()
    } else if tags[0].0 == taglist_name() {
        spec_tag_parts(tags.skip(1))
    } else {
        seq![spec_tag_entry(tags[0].0, tags[0].1)] + spec_tag_parts(tags.skip(1))
    }
}

/// The single string a tag list renders to: the parts joined by a comma and
/// a space.
pub open spec fn spec_tag_list_string(tags: Seq<(Seq<char>, Seq<Seq<char>>)>) -> Seq<char> {
    join_sep(spec_tag_parts(tags), seq![',', ' '])
}

/// The view of a tag list: names with their value lists.
pub open spec fn tags_view(tags: Seq<(String, Vec<String>)>) -> Seq<(Seq<char>, Seq<Seq<char>>)> {
    tags.map_values(|t: (String, Vec<String>)| (t.0@, t.1@.map_values(|v: String| v@)))
}

/// Renders a tag list to the tag injector's string form, exact against
/// `spec_tag_list_string`.
pub fn tag_list_to_string(tags: &Vec<(String, Vec<String>)>) -> (r: String)
    ensures
        r@ == spec_tag_list_string(tags_view(tags@)),
{
    let ghost views = tags_view(tags@);
    let mut parts: Vec<String> = Vec::new();
    proof {
        reveal_strlit("taglist");
        reveal_strlit("=");
        reveal_strlit(",");
        reveal_strlit(", ");
        assert("taglist"@ =~= taglist_name());
        assert("="@ =~= seq!['=']);
        assert(","@ =~= seq![',']);
        assert(", "@ =~= seq![',', ' ']);
        assert(views.skip(0) =~= views);
        assert(parts@.map_values(|p: String| p@) + spec_tag_parts(views) =~= spec_tag_parts(
            views,
        ));
    }
    let n = tags.len();
    let mut i: usize = 0;
    while i < n
        invariant
            i <= n,
            n == tags@.len(),
            views == tags_view(tags@),
            views.len() == n,
            parts@.map_values(|p: String| p@) + spec_tag_parts(views.skip(i as int))
                == spec_tag_parts(views),
        decreases n - i,
    {
        proof {
            reveal_strlit("taglist");
            assert("taglist"@ =~= taglist_name());
            assert(views.skip(i as int)[0] == views[i as int]);
            assert(views.skip(i as int).skip(1) =~= views.skip(i as int + 1));
        }
        let (name, values) = &tags[i];
        if !crate::text::str_eq(name.as_str(), "taglist") {
            proof {
                reveal_strlit("=");
                reveal_strlit(",");
                assert("="@ =~= seq!['=']);
                assert(","@ =~= seq![',']);
            }
            let ghost parts_before = parts@.map_values(|p: String| p@);
            let rendered_values = join_with_sep(values, ",");
            let entry = name.clone().concat("=").concat(rendered_values.as_str());
            proof {
                assert(entry@ =~= spec_tag_entry(views[i as int].0, views[i as int].1));
            }
            parts.push(entry);
            proof {
                assert(parts@.map_values(|p: String| p@) =~= parts_before.push(entry@));
                assert(parts_before.push(entry@) + spec_tag_parts(views.skip(i as int + 1))
                    =~= parts_before + (seq![spec_tag_entry(views[i as int].0, views[i as int].1)]
                    + spec_tag_parts(views.skip(i as int + 1))));
            }
        }
        i = i + 1;
    }
    proof {
        assert(views.skip(n as int) =~= Seq::<(Seq<char>, Seq<Seq<char>>)>::empty());
        assert(spec_tag_parts(views.skip(n as int)) =~= Seq::<Seq<char>>::empty());
        assert(parts@.map_values(|p: String| p@) + Seq::<Seq<char>>::empty() =~= parts@
            .map_values(|p: String| p@));
        reveal_strlit(", ");
        assert(", "@ =~= seq![',', ' ']);
    }
    join_with_sep(&parts, ", ")
}

} // verus!
