//! The pictures a content shows: the addresses of its `img` tags.
use crate::element::content::html::{builds, fragment_events, parse_html, HtmlKind, HtmlNode};
use crate::element::content::html_reader::{elem_attr_value, elem_name, img_src, root_children};
use crate::util::address::{parse_url, url_parts, UrlFields};
use crate::util::text::str_eq;
use vstd::prelude::*;

verus! {

/// A start tag of an HTML text: its name and its attributes, in order.
#[derive(Debug, Clone)]
pub struct StartTag {
    pub name: String,
    pub attrs: Vec<(String, String)>,
}

/// The value of the attribute that gives the picture of an image tag: the
/// first `data-original` attribute, or else the last `src` attribute.
pub open spec fn picture_attr(attrs: Seq<(String, String)>) -> Option<Seq<char>>
    decreases attrs.len(),
{
    if attrs.len() == 0 {
        None
    } else if attrs[0].0@ == "data-original"@ {
        Some(attrs[0].1@)
    } else {
        match picture_attr(attrs.drop_first()) {
            Some(v) => Some(v),
            None => if attrs[0].0@ == "src"@ {
                Some(attrs[0].1@)
            } else {
                None
            },
        }
    }
}

/// The texts of a sequence of strings.
pub open spec fn texts(v: Seq<String>) -> Seq<Seq<char>> {
    v.map_values(|s: String| s@)
}

/// The address of the picture of a start tag: that of an `img` tag whose
/// picture attribute holds a valid URL, in normalized form.
pub open spec fn tag_picture(t: StartTag) -> Option<Seq<char>> {
    if t.name@ == "img"@ {
        match picture_attr(t.attrs@) {
            Some(v) => match url_parts(v) {
                Some(u) => Some(u.text),
                None => None,
            },
            None => None,
        }
    } else {
        None
    }
}

/// The attribute that gives the picture of an image tag.
fn picture_attr_of(attrs: &Vec<(String, String)>) -> (r: Option<&String>)
    ensures
        match r {
            Some(v) => picture_attr(attrs@) == Some(v@),
            None => picture_attr(attrs@) is None,
        },
{
    let mut r: Option<&String> = None;
    let mut i: usize = attrs.len();
    assert(attrs@.subrange(attrs@.len() as int, attrs@.len() as int).len() == 0);
    while i > 0
        invariant
            0 <= i <= attrs@.len(),
            match r {
                Some(v) => picture_attr(attrs@.subrange(i as int, attrs@.len() as int)) == Some(v@),
                None => picture_attr(attrs@.subrange(i as int, attrs@.len() as int)) is None,
            },
        decreases i,
    {
        i = i - 1;
        let (name, value) = &attrs[i];
        proof {
            let s = attrs@.subrange(i as int, attrs@.len() as int);
            assert(s.drop_first() =~= attrs@.subrange(i + 1, attrs@.len() as int));
            assert(s[0] == attrs@[i as int]);
        }
        if str_eq(name.as_str(), "data-original") {
            r = Some(value);
        } else if str_eq(name.as_str(), "src") && r.is_none() {
            r = Some(value);
        }
    }
    assert(attrs@.subrange(0, attrs@.len() as int) =~= attrs@);
    r
}

/// The normalized text of a parsed address, if it parsed.
pub open spec fn address_of(p: Option<UrlFields>) -> Option<Seq<char>> {
    match p {
        Some(u) => Some(u.text@),
        None => None,
    }
}

/// The normalized texts of parsed addresses, each once, in the order they
/// first appear; addresses that did not parse are passed over.
pub fn unique_addresses(parsed: &Vec<Option<UrlFields>>) -> (r: Vec<String>)
    ensures
        texts(r@).no_duplicates(),
        forall|u: Seq<char>|
            #[trigger] texts(r@).contains(u) <==> exists|i: int|
                0 <= i < parsed@.len() && address_of(parsed@[i]) == Some(u),
{
    let mut r: Vec<String> = Vec::new();
    let mut i: usize = 0;
    while i < parsed.len()
        invariant
            0 <= i <= parsed@.len(),
            texts(r@).no_duplicates(),
            forall|u: Seq<char>|
                #[trigger] texts(r@).contains(u) <==> exists|j: int|
                    0 <= j < i && address_of(parsed@[j]) == Some(u),
        decreases parsed@.len() - i,
    {
        let ghost before = texts(r@);
        match &parsed[i] {
            Some(u) => {
                let s = &u.text;
                let mut k: usize = 0;
                let mut found = false;
                while k < r.len()
                    invariant
                        0 <= k <= r@.len(),
                        found ==> before.contains(s@),
                        !found ==> forall|j: int| 0 <= j < k ==> r@[j]@ != s@,
                        before == texts(r@),
                    decreases r@.len() - k,
                {
                    if str_eq(r[k].as_str(), s.as_str()) {
                        found = true;
                        assert(before[k as int] == s@);
                    }
                    k = k + 1;
                }
                if !found {
                    r.push(s.clone());
                    proof {
                        assert(texts(r@) =~= before.push(s@));
                        assert(!before.contains(s@)) by {
                            if before.contains(s@) {
                                let j = choose|j: int| 0 <= j < before.len() && before[j] == s@;
                                assert(r@[j]@ == s@);
                            }
                        }
                    }
                }
            },
            None => {},
        }
        proof {
            let now = texts(r@);
            assert forall|u: Seq<char>| #[trigger] now.contains(u) <==> exists|j: int|
                0 <= j < i + 1 && address_of(parsed@[j]) == Some(u) by {
                if now.contains(u) && !before.contains(u) {
                    assert(address_of(parsed@[i as int]) == Some(u));
                }
                if exists|j: int| 0 <= j < i + 1 && address_of(parsed@[j]) == Some(u) {
                    let j = choose|j: int| 0 <= j < i + 1 && address_of(parsed@[j]) == Some(u);
                    if j < i {
                        assert(before.contains(u));
                        let k = choose|k: int| 0 <= k < before.len() && before[k] == u;
                        assert(now[k] == u);
                    } else {
                        if !before.contains(u) {
                            assert(now[now.len() - 1] == u);
                        } else {
                            let k = choose|k: int| 0 <= k < before.len() && before[k] == u;
                            assert(now[k] == u);
                        }
                    }
                }
                if before.contains(u) {
                    let k = choose|k: int| 0 <= k < before.len() && before[k] == u;
                    assert(now[k] == u);
                }
            }
        }
        i = i + 1;
    }
    r
}

/// The addresses of the pictures of the `img` tags among `tags`, each once,
/// in the order they first appear; for a caller that reads the start tags
/// of the HTML itself, tag by tag, without building a tree.
pub fn image_urls(tags: &Vec<StartTag>) -> (r: Vec<String>)
    ensures
        texts(r@).no_duplicates(),
        forall|u: Seq<char>|
            #[trigger] texts(r@).contains(u) <==> exists|i: int|
                0 <= i < tags@.len() && tag_picture(tags@[i]) == Some(u),
{
    let mut parsed: Vec<Option<UrlFields>> = Vec::new();
    let mut i: usize = 0;
    while i < tags.len()
        invariant
            0 <= i <= tags@.len(),
            parsed@.len() == i,
            forall|j: int| 0 <= j < i ==> address_of(#[trigger] parsed@[j]) == tag_picture(tags@[j]),
        decreases tags@.len() - i,
    {
        let t = &tags[i];
        let p = if str_eq(t.name.as_str(), "img") {
            match picture_attr_of(&t.attrs) {
                Some(v) => parse_url(v.as_str()),
                None => None,
            }
        } else {
            None
        };
        parsed.push(p);
        i = i + 1;
    }
    let r = unique_addresses(&parsed);
    proof {
        assert forall|u: Seq<char>| #[trigger] texts(r@).contains(u) <==> exists|i: int|
            0 <= i < tags@.len() && tag_picture(tags@[i]) == Some(u) by {
            if texts(r@).contains(u) {
                let i = choose|i: int| 0 <= i < parsed@.len() && address_of(parsed@[i]) == Some(u);
                assert(tag_picture(tags@[i]) == Some(u));
            }
            if exists|i: int| 0 <= i < tags@.len() && tag_picture(tags@[i]) == Some(u) {
                let i = choose|i: int| 0 <= i < tags@.len() && tag_picture(tags@[i]) == Some(u);
                assert(address_of(parsed@[i]) == Some(u));
            }
        }
    }
    r
}

/// The normalized address of a picture attribute, where it is a valid URL.
pub open spec fn url_text(v: Seq<char>) -> Option<Seq<char>> {
    match url_parts(v) {
        Some(u) => Some(u.text),
        None => None,
    }
}

/// The pictures of a node and the nodes below it, in document order: for
/// each `img` element with a `data-original` or `src` attribute, the
/// normalized address of that attribute (`data-original` first), if it is a
/// valid URL.
pub open spec fn node_pictures(n: HtmlNode) -> Seq<Option<Seq<char>>>
    decreases n,
{
    (if elem_name(n) == Some("img"@) && img_src(n) is Some {
        seq![url_text(img_src(n).unwrap())]
    } else {
        seq![]
    }) + nodes_pictures(n.children@)
}

/// The pictures of nodes and the nodes below them, in document order.
pub open spec fn nodes_pictures(s: Seq<HtmlNode>) -> Seq<Option<Seq<char>>>
    decreases s,
{
    if s.len() == 0 {
        seq![]
    } else {
        nodes_pictures(s.drop_last()) + node_pictures(s.last())
    }
}

/// The addresses of parsed picture attributes.
pub open spec fn addresses(p: Seq<Option<UrlFields>>) -> Seq<Option<Seq<char>>> {
    p.map_values(|x: Option<UrlFields>| address_of(x))
}

/// Appends the parsed pictures of a node and the nodes below it.
fn push_node_pictures(n: &HtmlNode, out: &mut Vec<Option<UrlFields>>)
    ensures
        addresses(final(out)@) == addresses(old(out)@) + node_pictures(*n),
    decreases n,
{
    let is_img = match &n.kind {
        HtmlKind::Element { name, .. } => str_eq(name.as_str(), "img"),
        _ => false,
    };
    let ghost start = addresses(out@);
    if is_img {
        let attr = match elem_attr_value(n, "data-original") {
            Some(v) => Some(v),
            None => elem_attr_value(n, "src"),
        };
        match attr {
            Some(v) => {
                let p = parse_url(v.as_str());
                out.push(p);
                assert(addresses(out@) =~= start + seq![url_text(img_src(*n).unwrap())]);
            },
            None => {
                assert(addresses(out@) =~= start + Seq::<Option<Seq<char>>>::empty());
            },
        }
    } else {
        assert(addresses(out@) =~= start + Seq::<Option<Seq<char>>>::empty());
    }
    let ghost own = addresses(out@);
    let ghost kids = n.children@;
    let mut i: usize = 0;
    assert(kids.take(0) =~= Seq::<HtmlNode>::empty());
    assert(own + nodes_pictures(kids.take(0)) =~= own);
    while i < n.children.len()
        invariant
            kids == n.children@,
            0 <= i <= kids.len(),
            addresses(out@) == own + nodes_pictures(kids.take(i as int)),
        decreases kids.len() - i,
    {
        proof {
            assert(decreases_to!(n => n.children));
            assert(decreases_to!(n.children => kids));
            assert(decreases_to!(kids => kids[i as int]));
        }
        push_node_pictures(&n.children[i], out);
        proof {
            assert(kids.take(i + 1).drop_last() =~= kids.take(i as int));
            assert(kids.take(i + 1).last() == kids[i as int]);
        }
        i = i + 1;
    }
    assert(kids.take(kids.len() as int) =~= kids);
}

/// The addresses of the pictures of a content's HTML, each once, in the
/// order they first appear: none without HTML; otherwise those of the
/// `img` elements of the document tree the HTML parses to (scraper's
/// fragment parse; see `node_pictures`). The tree builder decides what is
/// an element: an `img` tag inside `textarea`, `script`, `title` or another
/// element read as text is no picture, and an `image` tag, which the tree
/// builder reads as `img`, is one.
pub fn content_image_urls(raw_html: Option<&str>) -> (r: Vec<String>)
    ensures
        texts(r@).no_duplicates(),
        raw_html is None ==> r@.len() == 0,
        raw_html is Some ==> exists|nodes: Seq<HtmlNode>|
            builds(
                fragment_events(raw_html.unwrap()@),
                0,
                fragment_events(raw_html.unwrap()@).len() as int,
                nodes,
            ) && forall|u: Seq<char>|
                #[trigger] texts(r@).contains(u) <==> nodes_pictures(root_children(nodes)).contains(Some(u)),
{
    match raw_html {
        None => Vec::new(),
        Some(h) => {
            let nodes = parse_html(h);
            let mut pics: Vec<Option<UrlFields>> = Vec::new();
            if nodes.len() > 0 {
                let kids = &nodes[0].children;
                let mut i: usize = 0;
                assert(kids@.take(0) =~= Seq::<HtmlNode>::empty());
                assert(addresses(pics@) =~= nodes_pictures(kids@.take(0)));
                while i < kids.len()
                    invariant
                        0 <= i <= kids@.len(),
                        addresses(pics@) == nodes_pictures(kids@.take(i as int)),
                    decreases kids@.len() - i,
                {
                    push_node_pictures(&kids[i], &mut pics);
                    proof {
                        assert(kids@.take(i + 1).drop_last() =~= kids@.take(i as int));
                        assert(kids@.take(i + 1).last() == kids@[i as int]);
                    }
                    i = i + 1;
                }
                assert(kids@.take(kids@.len() as int) =~= kids@);
            } else {
                assert(addresses(pics@) =~= nodes_pictures(root_children(nodes@)));
            }
            let r = unique_addresses(&pics);
            proof {
                let a = addresses(pics@);
                assert forall|u: Seq<char>| #[trigger] texts(r@).contains(u) <==> a.contains(Some(u)) by {
                    if texts(r@).contains(u) {
                        let i = choose|i: int| 0 <= i < pics@.len() && address_of(pics@[i]) == Some(u);
                        assert(a[i] == Some(u));
                    }
                    if a.contains(Some(u)) {
                        let i = choose|i: int| 0 <= i < a.len() && a[i] == Some(u);
                        assert(address_of(pics@[i]) == Some(u));
                    }
                }
            }
            r
        },
    }
}

} // verus!
