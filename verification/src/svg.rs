use vstd::prelude::*;
use vstd::string::*;

use crate::document::{Document, DocumentView};
use crate::object::ObjectView;
use crate::text::{decimal, push_decimal};

verus! {

/// What `c` becomes in XML text: the five reserved characters as entities,
/// every other character as itself.
pub open spec fn escape_char(c: char) -> Seq<char> {
    if c == '&' {
        seq!['&', 'a', 'm', 'p', ';']
    } else if c == '<' {
        seq!['&', 'l', 't', ';']
    } else if c == '>' {
        seq!['&', 'g', 't', ';']
    } else if c == '"' {
        seq!['&', 'q', 'u', 'o', 't', ';']
    } else if c == '\'' {
        seq!['&', 'a', 'p', 'o', 's', ';']
    } else {
        seq![c]
    }
}

/// `s` with each character escaped for XML.
pub open spec fn spec_escape_xml(s: Seq<char>) -> Seq<char>
    decreases s.len(),
{
    if s.len() == 0 {
        Seq::empty()
    } else {
        spec_escape_xml(s.drop_last()) + escape_char(s.last())
    }
}

/// The entity or character that `c` is written as.
fn escaped(c: char, s: &str, i: usize) -> (e: &str)
    requires
        i < s@.len() <= usize::MAX,
        s@[i as int] == c,
    ensures
        e@ == escape_char(c),
{
    proof {
        reveal_strlit("&amp;");
        reveal_strlit("&lt;");
        reveal_strlit("&gt;");
        reveal_strlit("&quot;");
        reveal_strlit("&apos;");
    }
    if c == '&' {
        "&amp;"
    } else if c == '<' {
        "&lt;"
    } else if c == '>' {
        "&gt;"
    } else if c == '"' {
        "&quot;"
    } else if c == '\'' {
        "&apos;"
    } else {
        let one = s.substring_char(i, i + 1);
        proof {
            assert(one@ =~= seq![c]);
        }
        one
    }
}

/// `s` with `&`, `<`, `>`, `"` and `'` written as XML entities.
pub fn escape_xml(s: &str) -> (r: String)
    ensures
        r@ == spec_escape_xml(s@),
{
    let n = s.unicode_len();
    let mut r = String::new();
    let mut i: usize = 0;
    while i < n
        invariant
            n == s@.len(),
            i <= n,
            r@ == spec_escape_xml(s@.take(i as int)),
        decreases n - i,
    {
        let c = s.get_char(i);
        r.append(escaped(c, s, i));
        proof {
            let next = s@.take(i + 1);
            assert(next.drop_last() =~= s@.take(i as int));
            assert(next.last() == c);
        }
        i = i + 1;
    }
    proof {
        assert(s@.take(n as int) =~= s@);
    }
    r
}

/// Escaped text contains none of `<`, `>`, `"` and `'`, and every `&` in it
/// begins an entity (it is followed by a letter).
pub proof fn lemma_escape_xml_clean(s: Seq<char>)
    ensures
        forall|k: int|
            0 <= k < spec_escape_xml(s).len() ==> {
                let c = #[trigger] spec_escape_xml(s)[k];
                &&& c != '<'
                &&& c != '>'
                &&& c != '"'
                &&& c != '\''
                &&& c == '&' ==> k + 1 < spec_escape_xml(s).len() && 'a' <= spec_escape_xml(s)[k + 1] <= 'z'
            },
    decreases s.len(),
{
    if s.len() > 0 {
        lemma_escape_xml_clean(s.drop_last());
        let pre = spec_escape_xml(s.drop_last());
        let tail = escape_char(s.last());
        assert forall|k: int| 0 <= k < spec_escape_xml(s).len() implies {
            let c = #[trigger] spec_escape_xml(s)[k];
            &&& c != '<'
            &&& c != '>'
            &&& c != '"'
            &&& c != '\''
            &&& c == '&' ==> k + 1 < spec_escape_xml(s).len() && 'a' <= spec_escape_xml(s)[k + 1] <= 'z'
        } by {
            if k < pre.len() {
                assert(spec_escape_xml(s)[k] == pre[k]);
                if pre[k] == '&' {
                    assert(spec_escape_xml(s)[k + 1] == pre[k + 1]);
                }
            } else {
                assert(spec_escape_xml(s)[k] == tail[k - pre.len()]);
                if k + 1 < spec_escape_xml(s).len() {
                    assert(spec_escape_xml(s)[k + 1] == tail[k + 1 - pre.len()]);
                }
            }
        }
    }
}

/// Text without any of the five reserved characters is written as it is.
pub proof fn lemma_escape_xml_plain(s: Seq<char>)
    requires
        forall|k: int|
            0 <= k < s.len() ==> #[trigger] s[k] != '&' && s[k] != '<' && s[k] != '>' && s[k] != '"'
                && s[k] != '\'',
    ensures
        spec_escape_xml(s) == s,
    decreases s.len(),
{
    if s.len() > 0 {
        let rest = s.drop_last();
        assert forall|k: int| 0 <= k < rest.len() implies #[trigger] rest[k] != '&' && rest[k] != '<'
            && rest[k] != '>' && rest[k] != '"' && rest[k] != '\'' by {
            assert(rest[k] == s[k]);
        }
        lemma_escape_xml_plain(rest);
        assert(s.last() == s[s.len() - 1]);
        assert(rest + seq![s.last()] =~= s);
    }
}

/// The markup of the visible objects among `objects`, in order, where
/// `markup[i]` is the markup of object `i`.
pub open spec fn visible_markup(objects: Seq<ObjectView>, markup: Seq<Seq<char>>) -> Seq<char>
    decreases objects.len(),
{
    if objects.len() == 0 {
        Seq::empty()
    } else {
        visible_markup(objects.drop_last(), markup) + if objects.last().visible {
            markup[objects.len() - 1]
        } else {
            Seq::empty()
        }
    }
}

/// The opening `<svg>` element and the dark background of a document.
pub open spec fn svg_prologue(doc: DocumentView) -> Seq<char> {
    "<svg xmlns=\"http://www.w3.org/2000/svg\" width=\""@ + decimal(doc.width as nat)
        + "\" height=\""@ + decimal(doc.height as nat) + "\" viewBox=\"0 0 "@ + decimal(
        doc.width as nat,
    ) + " "@ + decimal(doc.height as nat) + "\">\n"@ + "  <rect width=\""@ + decimal(
        doc.width as nat,
    ) + "\" height=\""@ + decimal(doc.height as nat) + "\" fill=\"#1E1E1E\"/>\n"@
}

/// The SVG text of a document whose objects have the given markup.
pub open spec fn spec_document_svg(doc: DocumentView, markup: Seq<Seq<char>>) -> Seq<char> {
    svg_prologue(doc) + visible_markup(doc.objects, markup) + "</svg>\n"@
}

/// The SVG text of `doc`: its size, a dark background, and then, for each
/// visible object bottom-most first, the markup `object_svg` holds for it
/// (invisible objects are left out).
pub fn document_to_svg(doc: &Document, object_svg: &Vec<String>) -> (svg: String)
    requires
        object_svg@.len() == doc@.objects.len(),
    ensures
        svg@ == spec_document_svg(doc@, object_svg@.map_values(|m: String| m@)),
{
    let ghost markup = object_svg@.map_values(|m: String| m@);
    let mut svg = String::from_str("<svg xmlns=\"http://www.w3.org/2000/svg\" width=\"");
    push_decimal(&mut svg, doc.width as u64);
    svg.append("\" height=\"");
    push_decimal(&mut svg, doc.height as u64);
    svg.append("\" viewBox=\"0 0 ");
    push_decimal(&mut svg, doc.width as u64);
    svg.append(" ");
    push_decimal(&mut svg, doc.height as u64);
    svg.append("\">\n");
    svg.append("  <rect width=\"");
    push_decimal(&mut svg, doc.width as u64);
    svg.append("\" height=\"");
    push_decimal(&mut svg, doc.height as u64);
    svg.append("\" fill=\"#1E1E1E\"/>\n");
    proof {
        assert(svg@ =~= svg_prologue(doc@));
    }
    let n = doc.objects.len();
    let mut i: usize = 0;
    while i < n
        invariant
            n == doc.objects@.len(),
            n == object_svg@.len(),
            markup == object_svg@.map_values(|m: String| m@),
            i <= n,
            svg@ == svg_prologue(doc@) + visible_markup(doc@.objects.take(i as int), markup),
        decreases n - i,
    {
        if doc.objects[i].visible {
            svg.append(object_svg[i].as_str());
        }
        proof {
            let next = doc@.objects.take(i + 1);
            assert(next.drop_last() =~= doc@.objects.take(i as int));
            assert(next.last() == doc.objects@[i as int]@);
            assert(markup[i as int] == object_svg@[i as int]@);
            assert(svg@ =~= svg_prologue(doc@) + visible_markup(next, markup));
        }
        i = i + 1;
    }
    svg.append("</svg>\n");
    proof {
        assert(doc@.objects.take(n as int) =~= doc@.objects);
        assert(svg@ =~= spec_document_svg(doc@, markup));
    }
    svg
}

} // verus!
