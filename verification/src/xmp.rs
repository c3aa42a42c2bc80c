use vstd::prelude::*;

use crate::types::{Extraction, ExtractionV, Thumbnail, ThumbnailV, thumbs_view};

verus! {

/// One element of a parsed XMP packet, as plain values: its local name,
/// its resolved namespace, the concatenated text of its direct text nodes,
/// and its child elements in document order.
pub struct XmlTree {
    pub name: String,
    pub ns: String,
    pub text: String,
    pub children: Vec<XmlTree>,
}

#[verifier::external_type_specification]
#[verifier::external_body]
pub struct ExElement(minidom::Element);

/// The tree that the XML parser yields for a payload, when the payload is
/// well-formed; a function of the text alone.
pub uninterp spec fn xml_tree_of(s: Seq<char>) -> Option<XmlTree>;

/// Relies on minidom's `FromStr` for `Element`: whether a payload parses as
/// namespace-well-formed XML, and the tree it parses to, depend on the text
/// alone.
#[verifier::external_body]
pub(crate) fn parse_xml_tree(s: &str) -> (r: Option<XmlTree>)
    ensures
        r == xml_tree_of(s@),
{
    match s.parse::<minidom::Element>() {
        Ok(e) => Some(elem_tree(&e)),
        Err(_) => None,
    }
}

/// Relies on minidom `Element`: `name`, `ns`, `text` and `children` read the
/// element's local name, namespace, direct text and child elements.
#[verifier::external_body]
fn elem_tree(e: &minidom::Element) -> XmlTree {
    XmlTree {
        name: e.name().to_string(),
        ns: e.ns(),
        text: e.text(),
        children: e.children().map(elem_tree).collect(),
    }
}

// The namespaces the walker probes.
pub open spec fn ns_rdf() -> Seq<char> {
    "http://www.w3.org/1999/02/22-rdf-syntax-ns#"@
}

pub open spec fn ns_dc() -> Seq<char> {
    "http://purl.org/dc/elements/1.1/"@
}

pub open spec fn ns_xap() -> Seq<char> {
    "http://ns.adobe.com/xap/1.0/"@
}

pub open spec fn ns_xmpg() -> Seq<char> {
    "http://ns.adobe.com/xap/1.0/g/img/"@
}

pub open spec fn ns_xmpmm() -> Seq<char> {
    "http://ns.adobe.com/xap/1.0/mm/"@
}

pub open spec fn ns_stref() -> Seq<char> {
    "http://ns.adobe.com/xap/1.0/sType/ResourceRef#"@
}

/// The first element of the list with the given name and namespace.
pub open spec fn spec_find_in(list: Seq<XmlTree>, name: Seq<char>, ns: Seq<char>) -> Option<
    XmlTree,
>
    decreases list.len(),
{
    if list.len() == 0 {
        None
    } else if list.first().name@ == name && list.first().ns@ == ns {
        Some(list.first())
    } else {
        spec_find_in(list.drop_first(), name, ns)
    }
}

/// The first child of the element with the given name and namespace.
pub open spec fn spec_find_child(t: XmlTree, name: Seq<char>, ns: Seq<char>) -> Option<XmlTree> {
    spec_find_in(t.children@, name, ns)
}

fn find_in<'a>(list: &'a Vec<XmlTree>, name: &String, ns: &String) -> (r: Option<&'a XmlTree>)
    ensures
        r is Some ==> spec_find_in(list@, name@, ns@) == Some(*r->Some_0),
        r is None ==> spec_find_in(list@, name@, ns@) is None,
{
    let mut i: usize = 0;
    assert(list@.skip(0) =~= list@);
    while i < list.len()
        invariant
            i <= list@.len(),
            spec_find_in(list@, name@, ns@) == spec_find_in(list@.skip(i as int), name@, ns@),
        decreases list@.len() - i,
    {
        proof {
            assert(list@.skip(i as int).first() == list@[i as int]);
            assert(list@.skip(i as int).drop_first() =~= list@.skip(i + 1 as int));
        }
        if list[i].name == *name && list[i].ns == *ns {
            return Some(&list[i]);
        }
        i = i + 1;
    }
    assert(list@.skip(list@.len() as int) =~= Seq::<XmlTree>::empty());
    None
}

fn find_child<'a>(t: &'a XmlTree, name: &String, ns: &String) -> (r: Option<&'a XmlTree>)
    ensures
        r is Some ==> spec_find_child(*t, name@, ns@) == Some(*r->Some_0),
        r is None ==> spec_find_child(*t, name@, ns@) is None,
{
    find_in(&t.children, name, ns)
}

/// The text the walker reads under an element that wraps a single language
/// entry: the first child's first child's text, absent when either level
/// is missing.
pub open spec fn spec_wrapped_text(el: XmlTree) -> Option<Seq<char>> {
    if el.children@.len() == 0 {
        None
    } else if el.children@[0].children@.len() == 0 {
        None
    } else {
        Some(el.children@[0].children@[0].text@)
    }
}

fn wrapped_text(el: &XmlTree) -> (r: Option<String>)
    ensures
        r is Some ==> spec_wrapped_text(*el) == Some(r->Some_0@),
        r is None ==> spec_wrapped_text(*el) is None,
{
    if el.children.len() == 0 {
        None
    } else if el.children[0].children.len() == 0 {
        None
    } else {
        Some(el.children[0].children[0].text.clone())
    }
}

/// One thumbnail descriptor: all four entries must be present in the
/// image namespace, or the descriptor is skipped.
pub open spec fn spec_thumb_of(el: XmlTree) -> Option<ThumbnailV> {
    match spec_find_child(el, "format"@, ns_xmpg()) {
        None => None,
        Some(f) => match spec_find_child(el, "width"@, ns_xmpg()) {
            None => None,
            Some(w) => match spec_find_child(el, "height"@, ns_xmpg()) {
                None => None,
                Some(h) => match spec_find_child(el, "image"@, ns_xmpg()) {
                    None => None,
                    Some(im) => Some(
                        ThumbnailV {
                            format: f.text@,
                            width: w.text@,
                            height: h.text@,
                            image: im.text@,
                        },
                    ),
                },
            },
        },
    }
}

fn thumb_of(el: &XmlTree) -> (r: Option<Thumbnail>)
    ensures
        r is Some ==> spec_thumb_of(*el) == Some(r->Some_0@),
        r is None ==> spec_thumb_of(*el) is None,
{
    let fo = find_child(el, &"format".to_owned(), &"http://ns.adobe.com/xap/1.0/g/img/".to_owned());
    let wo = find_child(el, &"width".to_owned(), &"http://ns.adobe.com/xap/1.0/g/img/".to_owned());
    let ho = find_child(el, &"height".to_owned(), &"http://ns.adobe.com/xap/1.0/g/img/".to_owned());
    let io = find_child(el, &"image".to_owned(), &"http://ns.adobe.com/xap/1.0/g/img/".to_owned());
    match (fo, wo, ho, io) {
        (Some(f), Some(w), Some(h), Some(im)) => Some(
            Thumbnail {
                format: f.text.clone(),
                width: w.text.clone(),
                height: h.text.clone(),
                image: im.text.clone(),
            },
        ),
        _ => None,
    }
}

/// The thumbnails a descriptor list yields, in order, skipping incomplete
/// descriptors.
pub open spec fn spec_thumb_seq(list: Seq<XmlTree>) -> Seq<ThumbnailV>
    decreases list.len(),
{
    if list.len() == 0 {
        Seq::empty()
    } else {
        match spec_thumb_of(list.first()) {
            Some(t) => seq![t] + spec_thumb_seq(list.drop_first()),
            None => spec_thumb_seq(list.drop_first()),
        }
    }
}

/// The thumbnails under a `Thumbnails` container: the descriptors are the
/// children of its first child; a container with no child yields none.
pub open spec fn spec_thumbs_of(container: XmlTree) -> Seq<ThumbnailV> {
    if container.children@.len() == 0 {
        Seq::empty()
    } else {
        spec_thumb_seq(container.children@[0].children@)
    }
}

fn thumbs_of(container: &XmlTree) -> (r: Vec<Thumbnail>)
    ensures
        thumbs_view(r@) == spec_thumbs_of(*container),
{
    let mut out: Vec<Thumbnail> = Vec::new();
    if container.children.len() == 0 {
        assert(thumbs_view(out@) =~= spec_thumbs_of(*container));
        return out;
    }
    let list = &container.children[0].children;
    let mut i: usize = 0;
    assert(thumbs_view(out@) =~= Seq::<ThumbnailV>::empty());
    assert(list@.skip(0) =~= list@);
    while i < list.len()
        invariant
            i <= list@.len(),
            spec_thumb_seq(list@) == thumbs_view(out@) + spec_thumb_seq(list@.skip(i as int)),
        decreases list@.len() - i,
    {
        proof {
            assert(list@.skip(i as int).first() == list@[i as int]);
            assert(list@.skip(i as int).drop_first() =~= list@.skip(i + 1 as int));
        }
        match thumb_of(&list[i]) {
            Some(t) => {
                let ghost prev = thumbs_view(out@);
                out.push(t);
                proof {
                    assert(thumbs_view(out@) =~= prev.push(t@));
                    assert(prev.push(t@) =~= prev + seq![t@]);
                    assert(spec_thumb_seq(list@.skip(i as int)) == seq![t@] + spec_thumb_seq(
                        list@.skip(i + 1 as int),
                    ));
                    assert(prev + (seq![t@] + spec_thumb_seq(list@.skip(i + 1 as int))) =~= (prev
                        + seq![t@]) + spec_thumb_seq(list@.skip(i + 1 as int)));
                }
            },
            None => {},
        }
        i = i + 1;
    }
    proof {
        assert(list@.skip(list@.len() as int) =~= Seq::<XmlTree>::empty());
        assert(spec_thumb_seq(Seq::<XmlTree>::empty()) =~= Seq::<ThumbnailV>::empty());
        assert(thumbs_view(out@) + Seq::<ThumbnailV>::empty() =~= thumbs_view(out@));
    }
    out
}

/// How one child of the RDF root updates the record: Dublin Core `title`,
/// `rights` and `creator` overwrite title, copyright and author; an XMP
/// `Thumbnails` container appends its descriptors; a media-management
/// `DerivedFrom` sets the original document id. A probe that finds nothing
/// leaves its target unchanged.
pub open spec fn xmp_child_step(st: ExtractionV, c: XmlTree) -> ExtractionV {
    let s1 = match spec_find_child(c, "title"@, ns_dc()) {
        Some(te) => match spec_wrapped_text(te) {
            Some(t) => ExtractionV { title: t, ..st },
            None => st,
        },
        None => st,
    };
    let s2 = match spec_find_child(c, "rights"@, ns_dc()) {
        Some(re) => match spec_wrapped_text(re) {
            Some(t) => ExtractionV { copyright: t, ..s1 },
            None => s1,
        },
        None => s1,
    };
    let s3 = match spec_find_child(c, "creator"@, ns_dc()) {
        Some(ce) => match spec_wrapped_text(ce) {
            Some(t) => ExtractionV { author: t, ..s2 },
            None => s2,
        },
        None => s2,
    };
    let s4 = match spec_find_child(c, "Thumbnails"@, ns_xap()) {
        Some(th) => ExtractionV { thumbnails: s3.thumbnails + spec_thumbs_of(th), ..s3 },
        None => s3,
    };
    let s5 = match spec_find_child(c, "DerivedFrom"@, ns_xmpmm()) {
        Some(df) => match spec_find_child(df, "originalDocumentID"@, ns_stref()) {
            Some(od) => ExtractionV { original_document_id: od.text@, ..s4 },
            None => s4,
        },
        None => s4,
    };
    s5
}

pub open spec fn xmp_fold(st: ExtractionV, children: Seq<XmlTree>) -> ExtractionV
    decreases children.len(),
{
    if children.len() == 0 {
        st
    } else {
        xmp_fold(xmp_child_step(st, children.first()), children.drop_first())
    }
}

fn xmp_child_step_exec(st: Extraction, c: &XmlTree) -> (r: Extraction)
    ensures
        r@ == xmp_child_step(st@, *c),
{
    let mut st = st;
    let dc = "http://purl.org/dc/elements/1.1/".to_owned();
    if let Some(te) = find_child(c, &"title".to_owned(), &dc) {
        if let Some(t) = wrapped_text(te) {
            st.title = t;
        }
    }
    if let Some(re) = find_child(c, &"rights".to_owned(), &dc) {
        if let Some(t) = wrapped_text(re) {
            st.copyright = t;
        }
    }
    if let Some(ce) = find_child(c, &"creator".to_owned(), &dc) {
        if let Some(t) = wrapped_text(ce) {
            st.author = t;
        }
    }
    if let Some(th) = find_child(c, &"Thumbnails".to_owned(), &"http://ns.adobe.com/xap/1.0/".to_owned()) {
        let ghost prev = thumbs_view(st.thumbnails@);
        let mut ts = thumbs_of(th);
        let ghost got = thumbs_view(ts@);
        st.thumbnails.append(&mut ts);
        proof {
            assert(thumbs_view(st.thumbnails@) =~= prev + got);
        }
    }
    if let Some(df) = find_child(c, &"DerivedFrom".to_owned(), &"http://ns.adobe.com/xap/1.0/mm/".to_owned()) {
        if let Some(od) = find_child(
            df,
            &"originalDocumentID".to_owned(),
            &"http://ns.adobe.com/xap/1.0/sType/ResourceRef#".to_owned(),
        ) {
            st.original_document_id = od.text.clone();
        }
    }
    st
}

/// The first descendant with the given local name, in document order,
/// found by a depth-first search that looks at each element before its
/// children's subtrees.
pub open spec fn spec_find_desc(list: Seq<XmlTree>, name: Seq<char>) -> Option<XmlTree>
    decreases list,
{
    if list.len() == 0 {
        None
    } else if list.first().name@ == name {
        Some(list.first())
    } else {
        match spec_find_desc(list.first().children@, name) {
            Some(t) => Some(t),
            None => spec_find_desc(list.drop_first(), name),
        }
    }
}

fn find_desc<'a>(list: &'a Vec<XmlTree>, name: &String) -> (r: Option<&'a XmlTree>)
    ensures
        r is Some ==> spec_find_desc(list@, name@) == Some(*r->Some_0),
        r is None ==> spec_find_desc(list@, name@) is None,
    decreases list@,
{
    let mut i: usize = 0;
    assert(list@.skip(0) =~= list@);
    while i < list.len()
        invariant
            i <= list@.len(),
            spec_find_desc(list@, name@) == spec_find_desc(list@.skip(i as int), name@),
        decreases list@.len() - i,
    {
        proof {
            assert(list@.skip(i as int).first() == list@[i as int]);
            assert(list@.skip(i as int).drop_first() =~= list@.skip(i + 1 as int));
        }
        if list[i].name == *name {
            return Some(&list[i]);
        }
        proof {
            assert(decreases_to!(list@ => list@[i as int]));
            assert(decreases_to!(list@[i as int] => list@[i as int].children));
            assert(decreases_to!(list@[i as int].children => list@[i as int].children@));
        }
        let found = find_desc(&list[i].children, name);
        if let Some(t) = found {
            return Some(t);
        }
        i = i + 1;
    }
    assert(list@.skip(list@.len() as int) =~= Seq::<XmlTree>::empty());
    None
}

/// The title an unstructured payload yields: the first nested descendant
/// named `title`, its first child, and that child's first `li` entry in
/// the RDF namespace; absent when any level is missing.
pub open spec fn spec_unstructured_title(root: XmlTree) -> Option<Seq<char>> {
    match spec_find_desc(root.children@, "title"@) {
        None => None,
        Some(te) => if te.children@.len() == 0 {
            None
        } else {
            match spec_find_in(te.children@[0].children@, "li"@, ns_rdf()) {
                None => None,
                Some(li) => Some(li.text@),
            }
        },
    }
}

/// The whole walk: an RDF wrapper at depth one routes every RDF child
/// through the probes in order; without one, only the unstructured title
/// lookup runs.
pub open spec fn spec_apply_xmp(root: XmlTree, st: ExtractionV) -> ExtractionV {
    match spec_find_child(root, "RDF"@, ns_rdf()) {
        Some(rdf) => xmp_fold(st, rdf.children@),
        None => match spec_unstructured_title(root) {
            Some(t) => ExtractionV { title: t, ..st },
            None => st,
        },
    }
}

/// Walk a parsed XMP payload and let what it yields overwrite the record.
pub fn apply_xmp(root: &XmlTree, st: Extraction) -> (r: Extraction)
    ensures
        r@ == spec_apply_xmp(*root, st@),
{
    let rdf = find_child(
        root,
        &"RDF".to_owned(),
        &"http://www.w3.org/1999/02/22-rdf-syntax-ns#".to_owned(),
    );
    match rdf {
        Some(rdf_root) => {
            let mut st = st;
            let ghost st0 = st@;
            let list = &rdf_root.children;
            let mut i: usize = 0;
            assert(list@.skip(0) =~= list@);
            while i < list.len()
                invariant
                    i <= list@.len(),
                    xmp_fold(st0, list@) == xmp_fold(st@, list@.skip(i as int)),
                decreases list@.len() - i,
            {
                proof {
                    assert(list@.skip(i as int).first() == list@[i as int]);
                    assert(list@.skip(i as int).drop_first() =~= list@.skip(i + 1 as int));
                }
                st = xmp_child_step_exec(st, &list[i]);
                i = i + 1;
            }
            proof {
                assert(list@.skip(list@.len() as int) =~= Seq::<XmlTree>::empty());
            }
            st
        },
        None => {
            let mut st = st;
            if let Some(te) = find_desc(&root.children, &"title".to_owned()) {
                if te.children.len() > 0 {
                    if let Some(li) = find_in(
                        &te.children[0].children,
                        &"li".to_owned(),
                        &"http://www.w3.org/1999/02/22-rdf-syntax-ns#".to_owned(),
                    ) {
                        st.title = li.text.clone();
                    }
                }
            }
            st
        },
    }
}

// ---------------------------------------------------------------------------
// The Dublin-Core title always wins
// ---------------------------------------------------------------------------

/// The title an RDF child run yields: the last extractable Dublin-Core
/// `title`, since later children overwrite earlier ones.
pub open spec fn xmp_title_of(children: Seq<XmlTree>) -> Option<Seq<char>>
    decreases children.len(),
{
    if children.len() == 0 {
        None
    } else {
        let lastt = match spec_find_child(children.last(), "title"@, ns_dc()) {
            Some(te) => spec_wrapped_text(te),
            None => None,
        };
        match lastt {
            Some(t) => Some(t),
            None => xmp_title_of(children.drop_last()),
        }
    }
}

proof fn lemma_xmp_fold_push(st: ExtractionV, children: Seq<XmlTree>, c: XmlTree)
    ensures
        xmp_fold(st, children.push(c)) == xmp_child_step(xmp_fold(st, children), c),
    decreases children.len(),
{
    if children.len() == 0 {
        assert(children.push(c).first() == c);
        assert(children.push(c).drop_first() =~= Seq::<XmlTree>::empty());
        assert(xmp_fold(xmp_child_step(st, c), Seq::<XmlTree>::empty()) == xmp_child_step(st, c));
    } else {
        assert(children.push(c).first() == children.first());
        assert(children.push(c).drop_first() =~= children.drop_first().push(c));
        lemma_xmp_fold_push(xmp_child_step(st, children.first()), children.drop_first(), c);
    }
}

proof fn lemma_xmp_fold_title(st: ExtractionV, children: Seq<XmlTree>)
    ensures
        xmp_fold(st, children).title == match xmp_title_of(children) {
            Some(t) => t,
            None => st.title,
        },
    decreases children.len(),
{
    if children.len() == 0 {
    } else {
        assert(children =~= children.drop_last().push(children.last()));
        lemma_xmp_fold_push(st, children.drop_last(), children.last());
        lemma_xmp_fold_title(st, children.drop_last());
    }
}

/// An RDF-wrapped payload with an extractable Dublin-Core `title` sets the
/// record's title to that text, whatever any earlier extractor had put
/// there: the walker runs last and overwrites.
pub proof fn lemma_xmp_title_wins(root: XmlTree, rdf: XmlTree, st: ExtractionV, t: Seq<char>)
    requires
        spec_find_child(root, "RDF"@, ns_rdf()) == Some(rdf),
        xmp_title_of(rdf.children@) == Some(t),
    ensures
        spec_apply_xmp(root, st).title == t,
{
    lemma_xmp_fold_title(st, rdf.children@);
}

} // verus!
