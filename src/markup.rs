use vstd::prelude::*;
use quick_xml::events::{BytesStart, Event};
use quick_xml::Reader;

verus! {

/// An element as the loader reads it: its name and, when every attribute
/// decoded, its attributes as key and value text in document order.
#[derive(Debug, PartialEq)]
pub struct Element {
    pub name: String,
    pub attributes: Result<Vec<(String, String)>, String>,
}

/// One markup event, with names and texts decoded.
#[derive(Debug, PartialEq)]
pub enum Token {
    Start(Element),
    Empty(Element),
    End(String),
    /// Character data; an error where an escape could not be resolved.
    Text(Result<String, String>),
    Eof,
    /// Any other event (comments, declarations, processing instructions).
    Other,
}

/// Attributes as key and value text, in document order.
pub type AttrsView = Seq<(Seq<char>, Seq<char>)>;

pub struct ElementView {
    pub name: Seq<char>,
    /// `None` when an attribute could not be decoded.
    pub attributes: Option<AttrsView>,
}

pub enum TokenView {
    Start(ElementView),
    Empty(ElementView),
    End(Seq<char>),
    Text(Option<Seq<char>>),
    Eof,
    Other,
}

pub open spec fn attrs_view(a: Seq<(String, String)>) -> AttrsView {
    a.map_values(|p: (String, String)| (p.0@, p.1@))
}

impl View for Element {
    type V = ElementView;

    open spec fn view(&self) -> ElementView {
        ElementView {
            name: self.name@,
            attributes: match self.attributes {
                Ok(a) => Some(attrs_view(a@)),
                Err(_) => None,
            },
        }
    }
}

impl View for Token {
    type V = TokenView;

    open spec fn view(&self) -> TokenView {
        match self {
            Token::Start(e) => TokenView::Start(e@),
            Token::Empty(e) => TokenView::Empty(e@),
            Token::End(n) => TokenView::End(n@),
            Token::Text(t) => TokenView::Text(
                match t {
                    Ok(s) => Some(s@),
                    Err(_) => None,
                },
            ),
            Token::Eof => TokenView::Eof,
            Token::Other => TokenView::Other,
        }
    }
}

pub open spec fn tokens_view(ts: Seq<Token>) -> Seq<TokenView> {
    ts.map_values(|t: Token| t@)
}

#[verifier::external_type_specification]
#[verifier::external_body]
#[verifier::reject_recursive_types(R)]
pub struct ExReader<R>(Reader<R>);

#[verifier::external_type_specification]
#[verifier::external_body]
pub struct ExBytesStart<'a>(BytesStart<'a>);

#[verifier::external_type_specification]
#[verifier::external_body]
pub struct ExEvent<'a>(Event<'a>);

/// Event `k` (from 0) that quick_xml's reader hands over for the document
/// `content`, with names, attributes and texts decoded; `None` where the
/// tokenizer fails there or a name is not UTF-8.
pub uninterp spec fn markup_event(content: Seq<char>, k: int) -> Option<TokenView>;

/// The events of `content` from the first up to the end of the document, or
/// `None` where the tokenizer fails before the end.
pub open spec fn markup_tokens(content: Seq<char>) -> Option<Seq<TokenView>> {
    if exists|n: int| events_reach_end(content, n) {
        let n = choose|n: int| events_reach_end(content, n);
        Some(Seq::new((n + 1) as nat, |k: int| markup_event(content, k)->0))
    } else {
        None
    }
}

/// Events `0..n` of `content` are read without failure and none is the end;
/// event `n` is the end.
pub open spec fn events_reach_end(content: Seq<char>, n: int) -> bool {
    &&& 0 <= n
    &&& forall|k: int| 0 <= k < n ==> ((#[trigger] markup_event(content, k)) matches Some(t) && !(t is Eof))
    &&& markup_event(content, n) == Some(TokenView::Eof)
}

/// The kind of the event that a reader read last.
#[derive(Clone, Copy, PartialEq, Eq, Structural)]
enum RawKind {
    Start,
    Empty,
    End,
    Text,
    Eof,
    Other,
}

/// A quick_xml reader over a document, with the event it read last. The
/// ghost fields count the events read and record the kind of the last one;
/// only the trusted functions below write any field.
struct MarkupReader<'a> {
    inner: Reader<&'a [u8]>,
    last: Result<Event<'a>, String>,
    content: Ghost<Seq<char>>,
    bytes: Ghost<int>,
    read: Ghost<int>,
    kind: Ghost<RawKind>,
}

/// Relies on quick_xml::Reader::from_str: a reader at the start of `content`.
#[verifier::external_body]
fn open_reader<'a>(content: &'a str) -> (r: MarkupReader<'a>)
    ensures
        r.content@ == content@,
        r.bytes@ == content.len(),
        r.read@ == 0,
{
    MarkupReader {
        inner: Reader::from_str(content),
        last: Ok(Event::Eof),
        content: Ghost(content@),
        bytes: Ghost(content.len() as int),
        read: Ghost(0),
        kind: Ghost(RawKind::Eof),
    }
}

/// Relies on quick_xml::Reader::read_event: reads the next event of the
/// document, or the tokenizer's error, and keeps it in the reader. Every
/// event but the end takes up at least one byte of the document.
#[verifier::external_body]
fn read_event<'a>(r: &mut MarkupReader<'a>) -> (e: Result<RawKind, String>)
    ensures
        final(r).content == old(r).content,
        final(r).bytes == old(r).bytes,
        final(r).read@ == old(r).read@ + 1,
        e matches Ok(k) ==> final(r).kind@ == k && (k != RawKind::Eof ==> old(r).read@ < old(r).bytes@),
        e matches Ok(RawKind::Eof) ==> markup_event(old(r).content@, old(r).read@) == Some(TokenView::Eof),
        e matches Ok(RawKind::Other) ==> markup_event(old(r).content@, old(r).read@) == Some(TokenView::Other),
        e is Err ==> markup_event(old(r).content@, old(r).read@) is None,
{
    r.read = Ghost(r.read@ + 1);
    r.last = r.inner.read_event().map_err(|x| x.to_string());
    let k = match &r.last {
        Ok(Event::Start(_)) => RawKind::Start,
        Ok(Event::Empty(_)) => RawKind::Empty,
        Ok(Event::End(_)) => RawKind::End,
        Ok(Event::Text(_)) => RawKind::Text,
        Ok(Event::Eof) => RawKind::Eof,
        Ok(_) => RawKind::Other,
        Err(m) => return Err(m.clone()),
    };
    r.kind = Ghost(k);
    Ok(k)
}

/// Relies on quick_xml's BytesStart::name, BytesStart::attributes and
/// Attribute::unescape_value: the start tag read last, with its name and
/// its decoded attributes.
#[verifier::external_body]
fn decode_start(r: &MarkupReader) -> (e: Result<Element, String>)
    requires
        r.read@ > 0,
        r.kind@ == RawKind::Start || r.kind@ == RawKind::Empty,
    ensures
        e matches Ok(x) ==> markup_event(r.content@, r.read@ - 1) == Some(
            if r.kind@ == RawKind::Empty { TokenView::Empty(x@) } else { TokenView::Start(x@) }),
        e is Err ==> markup_event(r.content@, r.read@ - 1) is None,
{
    let e = match &r.last { Ok(Event::Start(e)) | Ok(Event::Empty(e)) => e, _ => return Err(String::new()) };
    let name = String::from_utf8(e.name().as_ref().to_vec()).map_err(|x| x.to_string())?;
    let attributes = e.attributes().map(|a| {
        let a = a.map_err(|x| x.to_string())?;
        let key = String::from_utf8(a.key.as_ref().to_vec()).map_err(|x| x.to_string())?;
        Ok((key, a.unescape_value().map_err(|x| x.to_string())?.into_owned()))
    }).collect();
    Ok(Element { name, attributes })
}

/// Relies on quick_xml's BytesEnd::name and String::from_utf8: the name of
/// the end tag read last.
#[verifier::external_body]
fn decode_end(r: &MarkupReader) -> (n: Result<String, String>)
    requires
        r.read@ > 0,
        r.kind@ == RawKind::End,
    ensures
        n matches Ok(x) ==> markup_event(r.content@, r.read@ - 1) == Some(TokenView::End(x@)),
        n is Err ==> markup_event(r.content@, r.read@ - 1) is None,
{
    match &r.last {
        Ok(Event::End(x)) => String::from_utf8(x.name().as_ref().to_vec()).map_err(|y| y.to_string()),
        _ => Err(String::new()),
    }
}

/// Relies on quick_xml's BytesText::unescape: the text read last, or an
/// error where an escape cannot be resolved.
#[verifier::external_body]
fn decode_text(r: &MarkupReader) -> (t: Result<String, String>)
    requires
        r.read@ > 0,
        r.kind@ == RawKind::Text,
    ensures
        markup_event(r.content@, r.read@ - 1) == Some(TokenView::Text(
            match t { Ok(x) => Some(x@), Err(_) => None })),
{
    match &r.last {
        Ok(Event::Text(x)) => x.unescape().map(String::from).map_err(|y| y.to_string()),
        _ => Err(String::new()),
    }
}

/// The next event with its names, attributes and text decoded.
fn read_token(r: &mut MarkupReader) -> (t: Result<Token, String>)
    requires
        old(r).read@ >= 0,
    ensures
        final(r).content == old(r).content,
        final(r).bytes == old(r).bytes,
        final(r).read@ == old(r).read@ + 1,
        t matches Ok(x) ==> markup_event(old(r).content@, old(r).read@) == Some(x@)
            && (!(x is Eof) ==> old(r).read@ < old(r).bytes@),
        t is Err ==> markup_event(old(r).content@, old(r).read@) is None,
{
    match read_event(r)? {
        RawKind::Start => match decode_start(r) {
            Ok(x) => Ok(Token::Start(x)),
            Err(m) => Err(m),
        },
        RawKind::Empty => match decode_start(r) {
            Ok(x) => Ok(Token::Empty(x)),
            Err(m) => Err(m),
        },
        RawKind::End => match decode_end(r) {
            Ok(n) => Ok(Token::End(n)),
            Err(m) => Err(m),
        },
        RawKind::Text => Ok(Token::Text(decode_text(r))),
        RawKind::Eof => Ok(Token::Eof),
        RawKind::Other => Ok(Token::Other),
    }
}

/// The events of `content` up to and including the end of the document;
/// fails exactly where the tokenizer fails before the end.
pub fn tokenize(content: &str) -> (r: Result<Vec<Token>, String>)
    ensures
        markup_tokens(content@) is None <==> r is Err,
        r matches Ok(t) ==> markup_tokens(content@) == Some(tokens_view(t@)),
{
    let mut reader = open_reader(content);
    let mut tokens: Vec<Token> = Vec::new();
    let ghost c = content@;
    loop
        invariant
            c == content@,
            reader.content@ == c,
            0 <= reader.read@ <= reader.bytes@,
            tokens@.len() == reader.read@,
            forall|k: int| 0 <= k < tokens@.len() ==> markup_event(c, k) == Some(#[trigger] tokens@[k]@),
            forall|k: int| 0 <= k < tokens@.len() ==> !(#[trigger] tokens@[k] is Eof),
        decreases reader.bytes@ - reader.read@,
    {
        let ghost k = reader.read@;
        match read_token(&mut reader) {
            Ok(t) => {
                let end = matches!(t, Token::Eof);
                tokens.push(t);
                if end {
                    proof {
                        assert(events_reach_end(c, k)) by {
                            assert forall|q: int| 0 <= q < k implies ((#[trigger] markup_event(c, q)) matches Some(x)
                                && !(x is Eof)) by {
                                assert(tokens@[q]@ == markup_event(c, q)->0);
                            }
                        }
                        lemma_end_is_unique(c, k);
                        assert(tokens_view(tokens@) =~= Seq::new((k + 1) as nat, |q: int| markup_event(c, q)->0));
                    }
                    return Ok(tokens);
                }
            },
            Err(m) => {
                proof {
                    assert forall|n: int| !events_reach_end(c, n) by {
                        if events_reach_end(c, n) {
                            if n < k {
                                assert(tokens@[n]@ == markup_event(c, n)->0);
                            } else if n > k {
                                assert(markup_event(c, k) is Some);
                            }
                        }
                    }
                }
                return Err(m);
            },
        }
    }
}

proof fn lemma_end_is_unique(c: Seq<char>, n: int)
    requires
        events_reach_end(c, n),
    ensures
        (choose|m: int| events_reach_end(c, m)) == n,
{
    let m = choose|m: int| events_reach_end(c, m);
    if m < n {
        assert(markup_event(c, m) matches Some(t) && !(t is Eof));
    } else if n < m {
        assert(markup_event(c, n) matches Some(t) && !(t is Eof));
    }
}

} // verus!
