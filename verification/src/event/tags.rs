//! Helpers for building MIP-04 tags. A tag is an array of at least two
//! strings: a name and a value (MIP-01).
use crate::encoding::{nested_strings_view, strings_view};
use crate::text::{owned, str_eq};
use vstd::prelude::*;
use vstd::string::*;

verus! {

/// The value of the first tag whose name is `name`: `None` when no tag has
/// that name, or when the first such tag has no value.
pub open spec fn tag_value(tags: Seq<Seq<Seq<char>>>, name: Seq<char>) -> Option<Seq<char>>
    decreases tags.len(),
{
    if tags.len() == 0 {
        None
    } else if tags[0].len() > 0 && tags[0][0] == name {
        if tags[0].len() > 1 {
            Some(tags[0][1])
        } else {
            None
        }
    } else {
        tag_value(tags.drop_first(), name)
    }
}

/// Whether the tag has the given name (a first string equal to it).
pub open spec fn named(tag: Seq<Seq<char>>, name: Seq<char>) -> bool {
    tag.len() > 0 && tag[0] == name
}

/// The value found for a name is the second string of the first tag, by
/// position, that has the name; when that tag has no second string there is
/// none.
pub proof fn lemma_tag_value_first_named(tags: Seq<Seq<Seq<char>>>, name: Seq<char>, i: int)
    requires
        0 <= i < tags.len(),
        named(tags[i], name),
        forall|j: int| 0 <= j < i ==> !named(#[trigger] tags[j], name),
    ensures
        tag_value(tags, name) == if tags[i].len() > 1 {
            Some(tags[i][1])
        } else {
            None
        },
    decreases i,
{
    if i > 0 {
        assert(!named(tags[0], name));
        assert forall|j: int| 0 <= j < i - 1 implies !named(#[trigger] tags.drop_first()[j], name) by {
            assert(tags.drop_first()[j] == tags[j + 1]);
            assert(!named(tags[j + 1], name));
        }
        lemma_tag_value_first_named(tags.drop_first(), name, i - 1);
    }
}

/// No value is found for a name that no tag has.
pub proof fn lemma_tag_value_unnamed(tags: Seq<Seq<Seq<char>>>, name: Seq<char>)
    requires
        forall|j: int| 0 <= j < tags.len() ==> !named(#[trigger] tags[j], name),
    ensures
        tag_value(tags, name) is None,
    decreases tags.len(),
{
    if tags.len() > 0 {
        assert(!named(tags[0], name));
        assert forall|j: int| 0 <= j < tags.len() - 1 implies !named(#[trigger] tags.drop_first()[j], name) by {
            assert(tags.drop_first()[j] == tags[j + 1]);
            assert(!named(tags[j + 1], name));
        }
        lemma_tag_value_unnamed(tags.drop_first(), name);
    }
}

/// A generic tag `[name, value]`.
pub fn tag(name: &str, value: &str) -> (res: Vec<String>)
    ensures
        strings_view(res@) == seq![name@, value@],
{
    let res = vec![owned(name), owned(value)];
    assert(strings_view(res@) =~= seq![name@, value@]);
    res
}

/// `["root", post_id]`: the post that owns the thread.
pub fn root(post_id: &str) -> (res: Vec<String>)
    ensures
        strings_view(res@) == seq!["root"@, post_id@],
{
    tag("root", post_id)
}

/// `["parent", comment_id]`: the event being replied to.
pub fn parent(comment_id: &str) -> (res: Vec<String>)
    ensures
        strings_view(res@) == seq!["parent"@, comment_id@],
{
    tag("parent", comment_id)
}

/// `["target", event_id]`: the event a reaction points to.
pub fn target(event_id: &str) -> (res: Vec<String>)
    ensures
        strings_view(res@) == seq!["target"@, event_id@],
{
    tag("target", event_id)
}

/// `["topic", name]`: indexable topic metadata.
pub fn topic(name: &str) -> (res: Vec<String>)
    ensures
        strings_view(res@) == seq!["topic"@, name@],
{
    tag("topic", name)
}

/// `["lang", code]`: language metadata.
pub fn lang(code: &str) -> (res: Vec<String>)
    ensures
        strings_view(res@) == seq!["lang"@, code@],
{
    tag("lang", code)
}

/// Finds the value of the first tag with the given name.
pub fn find<'a>(tags: &'a [Vec<String>], name: &str) -> (res: Option<&'a str>)
    ensures
        match res {
            Some(v) => tag_value(nested_strings_view(tags@), name@) == Some(v@),
            None => tag_value(nested_strings_view(tags@), name@) is None,
        },
{
    let ghost all = nested_strings_view(tags@);
    let n = tags.len();
    let mut i: usize = 0;
    assert(all.subrange(0, n as int) =~= all);
    while i < n
        invariant
            n == tags@.len(),
            all == nested_strings_view(tags@),
            i <= n,
            tag_value(all, name@) == tag_value(all.subrange(i as int, n as int), name@),
        decreases n - i,
    {
        let t = &tags[i];
        let ghost rest = all.subrange(i as int, n as int);
        assert(rest[0] == strings_view(t@));
        if t.len() > 0 && str_eq(t[0].as_str(), name) {
            if t.len() > 1 {
                return Some(t[1].as_str());
            } else {
                return None;
            }
        }
        assert(rest.drop_first() =~= all.subrange(i + 1, n as int));
        i = i + 1;
    }
    None
}

} // verus!
