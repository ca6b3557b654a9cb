//! What the crawl takes from the tags of a page: the `href` of an anchor.

use vstd::prelude::*;

verus! {

/// One attribute of a start tag, as bytes of the page.
#[derive(Debug, Clone, PartialEq, Eq)]
pub struct Attribute {
    pub key: Vec<u8>,
    pub value: Vec<u8>,
}

/// The tag name of an anchor: `a`.
pub open spec fn anchor_name() -> Seq<u8> {
    seq![0x61u8]
}

/// The attribute name of a link target: `href`.
pub open spec fn href_name() -> Seq<u8> {
    seq![0x68u8, 0x72u8, 0x65u8, 0x66u8]
}

/// The position of the first attribute named `href`, or the number of
/// attributes where there is none.
pub open spec fn first_href(attributes: Seq<Attribute>) -> int
    decreases attributes.len(),
{
    if attributes.len() == 0 || attributes[0].key@ == href_name() {
        0
    } else {
        1 + first_href(attributes.drop_first())
    }
}

/// The link candidate of a start tag: the value of the first `href` of an
/// anchor. Other tags, and anchors without `href`, have none.
pub open spec fn candidate(tag: Seq<u8>, attributes: Seq<Attribute>) -> Option<Seq<u8>> {
    if tag == anchor_name() && first_href(attributes) < attributes.len() {
        Some(attributes[first_href(attributes)].value@)
    } else {
        None
    }
}

/// Whether `name` reads `href`.
fn is_href(name: &Vec<u8>) -> (yes: bool)
    ensures
        yes == (name@ == href_name()),
{
    let yes = name.len() == 4 && name[0] == 0x68u8 && name[1] == 0x72u8 && name[2] == 0x65u8
        && name[3] == 0x66u8;
    proof {
        if yes {
            assert(name@ =~= href_name());
        }
    }
    yes
}

/// The link candidate of a start tag named `tag` with the attributes
/// `attributes`, in the order in which the tag holds them.
pub fn anchor_href<'a>(tag: &Vec<u8>, attributes: &'a Vec<Attribute>) -> (href: Option<&'a Vec<u8>>)
    ensures
        match href {
            Some(value) => candidate(tag@, attributes@) == Some(value@),
            None => candidate(tag@, attributes@) is None,
        },
{
    if !(tag.len() == 1 && tag[0] == 0x61u8) {
        return None;
    }
    assert(tag@ =~= anchor_name());
    assert(attributes@.skip(0) =~= attributes@);
    let mut i: usize = 0;
    while i < attributes.len()
        invariant
            tag@ == anchor_name(),
            i <= attributes.len(),
            first_href(attributes@) == i + first_href(attributes@.skip(i as int)),
        decreases attributes.len() - i,
    {
        proof {
            assert(attributes@.skip(i as int)[0] == attributes@[i as int]);
            assert(attributes@.skip(i as int).drop_first() =~= attributes@.skip(i + 1));
        }
        if is_href(&attributes[i].key) {
            return Some(&attributes[i].value);
        }
        i += 1;
    }
    proof {
        assert(attributes@.skip(i as int).len() == 0);
    }
    None
}

} // verus!
