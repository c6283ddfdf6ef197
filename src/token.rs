//! A plain-value model of lexical token trees.
//!
//! A token carries a [`Span`], which is either the call site of the
//! transformation or an opaque index into a table of source positions that
//! the caller keeps.
use vstd::prelude::*;

verus! {

/// Where a token comes from.
#[derive(Clone, Copy, Debug, PartialEq, Eq, Structural)]
pub enum Span {
    /// The position of the macro invocation itself.
    CallSite,
    /// A source position, as an index chosen by the caller.
    Source(usize),
}

#[derive(Clone, Copy, Debug, PartialEq, Eq, Structural)]
pub enum Delimiter {
    Parenthesis,
    Brace,
    Bracket,
    Invisible,
}

/// Whether a punctuation character is immediately followed by another one.
#[derive(Clone, Copy, Debug, PartialEq, Eq, Structural)]
pub enum Spacing {
    Alone,
    Joint,
}

#[derive(Clone, Debug, PartialEq, Eq)]
pub struct Ident {
    pub name: String,
    pub span: Span,
}

#[derive(Clone, Copy, Debug, PartialEq, Eq, Structural)]
pub struct Punct {
    pub ch: char,
    pub spacing: Spacing,
    pub span: Span,
}

/// A literal, held as its source text (a string literal keeps its quotes).
#[derive(Clone, Debug, PartialEq, Eq)]
pub struct Literal {
    pub text: String,
    pub span: Span,
}

#[derive(Debug, PartialEq, Eq)]
pub struct Group {
    pub delimiter: Delimiter,
    pub stream: Vec<TokenTree>,
    pub span: Span,
}

#[derive(Debug, PartialEq, Eq)]
pub enum TokenTree {
    Group(Group),
    Ident(Ident),
    Punct(Punct),
    Literal(Literal),
}

/// The mathematical value of a token tree: strings as character sequences,
/// nested streams as sequences.
pub enum TokenView {
    Group(Delimiter, Seq<TokenView>, Span),
    Ident(Seq<char>, Span),
    Punct(char, Spacing, Span),
    Literal(Seq<char>, Span),
}

pub open spec fn token_view(t: TokenTree) -> TokenView
    decreases t,
{
    match t {
        TokenTree::Group(g) => TokenView::Group(g.delimiter, stream_view(g.stream@), g.span),
        TokenTree::Ident(i) => TokenView::Ident(i.name@, i.span),
        TokenTree::Punct(p) => TokenView::Punct(p.ch, p.spacing, p.span),
        TokenTree::Literal(l) => TokenView::Literal(l.text@, l.span),
    }
}

pub open spec fn stream_view(s: Seq<TokenTree>) -> Seq<TokenView>
    decreases s,
{
    if s.len() == 0 {
        Seq::empty()
    } else {
        stream_view(s.drop_last()).push(token_view(s.last()))
    }
}


/// The view of a stream is the view of each of its tokens.
pub proof fn lemma_stream_view_concat(a: Seq<TokenTree>, b: Seq<TokenTree>)
    ensures
        stream_view(a + b) == stream_view(a) + stream_view(b),
    decreases b.len(),
{
    if b.len() == 0 {
        assert(a + b =~= a);
        assert(stream_view(a) + stream_view(b) =~= stream_view(a));
    } else {
        assert((a + b).drop_last() =~= a + b.drop_last());
        lemma_stream_view_concat(a, b.drop_last());
        assert(stream_view(a) + stream_view(b) =~= (stream_view(a) + stream_view(
            b.drop_last(),
        )).push(token_view(b.last())));
    }
}

pub open spec fn call_site_ident(name: Seq<char>) -> TokenView {
    TokenView::Ident(name, Span::CallSite)
}

pub open spec fn call_site_punct(ch: char, spacing: Spacing) -> TokenView {
    TokenView::Punct(ch, spacing, Span::CallSite)
}

pub open spec fn call_site_group(delimiter: Delimiter, stream: Seq<TokenView>) -> TokenView {
    TokenView::Group(delimiter, stream, Span::CallSite)
}

pub open spec fn call_site_literal(text: Seq<char>) -> TokenView {
    TokenView::Literal(text, Span::CallSite)
}

/// `::`, as two punctuation tokens.
pub open spec fn path_sep() -> Seq<TokenView> {
    seq![call_site_punct(':', Spacing::Joint), call_site_punct(':', Spacing::Alone)]
}

/// The decimal digits of `n`, most significant first.
pub open spec fn decimal_digits(n: nat) -> Seq<char>
    decreases n,
{
    if n < 10 {
        seq![digit_char(n)]
    } else {
        decimal_digits(n / 10).push(digit_char(n % 10))
    }
}

pub open spec fn digit_char(d: nat) -> char {
    ((d + 48) as u8) as char
}

pub open spec fn escape_char(c: char) -> Seq<char> {
    if c == '"' {
        seq!['\\', '"']
    } else if c == '\\' {
        seq!['\\', '\\']
    } else if c == '\r' {
        seq!['\\', 'r']
    } else {
        seq![c]
    }
}

pub open spec fn escaped(s: Seq<char>) -> Seq<char>
    decreases s.len(),
{
    if s.len() == 0 {
        Seq::empty()
    } else {
        escaped(s.drop_last()) + escape_char(s.last())
    }
}

/// The source text of a string literal whose value is `s`.
pub open spec fn string_literal_text(s: Seq<char>) -> Seq<char> {
    seq!['"'] + escaped(s) + seq!['"']
}

/// Relies on `String::push`, which appends one character.
#[verifier::external_body]
pub(crate) fn push_char(s: &mut String, c: char)
    ensures
        final(s)@ == old(s)@.push(c),
{
    s.push(c)
}

fn push_decimal(s: &mut String, n: u64)
    ensures
        final(s)@ == old(s)@ + decimal_digits(n as nat),
    decreases n,
{
    if n >= 10 {
        push_decimal(s, n / 10);
    }
    let d = (n % 10) as u8;
    push_char(s, (d + 48) as char);
    assert(final(s)@ =~= old(s)@ + decimal_digits(n as nat));
}

impl Ident {
    pub fn new(name: &str, span: Span) -> (r: Ident)
        ensures
            r.name@ == name@,
            r.span == span,
    {
        Ident { name: String::from_str(name), span }
    }
}

impl Punct {
    /// A punctuation token at the call site.
    pub fn new(ch: char, spacing: Spacing) -> (r: Punct)
        ensures
            r == (Punct { ch, spacing, span: Span::CallSite }),
    {
        Punct { ch, spacing, span: Span::CallSite }
    }
}

impl Group {
    /// A delimited group at the call site.
    pub fn new(delimiter: Delimiter, stream: Vec<TokenTree>) -> (r: Group)
        ensures
            r.delimiter == delimiter,
            r.stream == stream,
            r.span == Span::CallSite,
    {
        Group { delimiter, stream, span: Span::CallSite }
    }
}

impl Literal {
    /// An integer literal with no suffix, at the call site.
    pub fn u64_unsuffixed(n: u64) -> (r: Literal)
        ensures
            r.text@ == decimal_digits(n as nat),
            r.span == Span::CallSite,
    {
        let mut text = String::new();
        push_decimal(&mut text, n);
        assert(text@ =~= decimal_digits(n as nat));
        Literal { text, span: Span::CallSite }
    }

    /// An integer literal with the suffix `u32`, at the call site.
    pub fn u32_suffixed(n: u32) -> (r: Literal)
        ensures
            r.text@ == decimal_digits(n as nat) + "u32"@,
            r.span == Span::CallSite,
    {
        let mut text = String::new();
        push_decimal(&mut text, n as u64);
        text.append("u32");
        assert(text@ =~= decimal_digits(n as nat) + "u32"@);
        Literal { text, span: Span::CallSite }
    }

    /// A string literal whose value is `s`, at the call site.
    pub fn string(s: &str) -> (r: Literal)
        ensures
            r.text@ == string_literal_text(s@),
            r.span == Span::CallSite,
    {
        let mut text = String::new();
        push_char(&mut text, '"');
        let n = s.unicode_len();
        let mut i: usize = 0;
        while i < n
            invariant
                n == s@.len(),
                i <= n,
                text@ == seq!['"'] + escaped(s@.subrange(0, i as int)),
            decreases n - i,
        {
            let c = s.get_char(i);
            if c == '"' || c == '\\' {
                push_char(&mut text, '\\');
                push_char(&mut text, c);
            } else if c == '\r' {
                push_char(&mut text, '\\');
                push_char(&mut text, 'r');
            } else {
                push_char(&mut text, c);
            }
            assert(s@.subrange(0, i + 1).drop_last() =~= s@.subrange(0, i as int));
            assert(text@ =~= seq!['"'] + escaped(s@.subrange(0, i + 1)));
            i = i + 1;
        }
        push_char(&mut text, '"');
        assert(s@.subrange(0, n as int) =~= s@);
        assert(text@ =~= string_literal_text(s@));
        Literal { text, span: Span::CallSite }
    }
}

impl TokenTree {
    pub fn span(&self) -> (r: Span)
        ensures
            r == token_span(*self),
    {
        match self {
            TokenTree::Group(g) => g.span,
            TokenTree::Ident(i) => i.span,
            TokenTree::Punct(p) => p.span,
            TokenTree::Literal(l) => l.span,
        }
    }
}

pub open spec fn token_span(t: TokenTree) -> Span {
    match t {
        TokenTree::Group(g) => g.span,
        TokenTree::Ident(i) => i.span,
        TokenTree::Punct(p) => p.span,
        TokenTree::Literal(l) => l.span,
    }
}

/// Appends a token to a stream.
pub fn push_token(v: &mut Vec<TokenTree>, t: TokenTree)
    ensures
        final(v)@ == old(v)@.push(t),
        stream_view(final(v)@) == stream_view(old(v)@).push(token_view(t)),
{
    v.push(t);
    assert(final(v)@.drop_last() =~= old(v)@);
}

/// Appends a stream to a stream.
pub fn extend_stream(v: &mut Vec<TokenTree>, mut more: Vec<TokenTree>)
    ensures
        final(v)@ == old(v)@ + more@,
        stream_view(final(v)@) == stream_view(old(v)@) + stream_view(more@),
{
    let ghost m = more@;
    v.append(&mut more);
    proof {
        lemma_stream_view_concat(old(v)@, m);
    }
}

/// An identifier token at the call site.
pub fn ident_token(name: &str) -> (r: TokenTree)
    ensures
        token_view(r) == call_site_ident(name@),
{
    TokenTree::Ident(Ident::new(name, Span::CallSite))
}

/// A punctuation token at the call site.
pub fn punct_token(ch: char, spacing: Spacing) -> (r: TokenTree)
    ensures
        token_view(r) == call_site_punct(ch, spacing),
{
    TokenTree::Punct(Punct::new(ch, spacing))
}

/// A delimited group at the call site.
pub fn group_token(delimiter: Delimiter, stream: Vec<TokenTree>) -> (r: TokenTree)
    ensures
        token_view(r) == call_site_group(delimiter, stream_view(stream@)),
{
    TokenTree::Group(Group::new(delimiter, stream))
}

/// Appends `::` to a stream.
pub fn push_path_sep(v: &mut Vec<TokenTree>)
    ensures
        stream_view(final(v)@) == stream_view(old(v)@) + path_sep(),
{
    push_token(v, punct_token(':', Spacing::Joint));
    push_token(v, punct_token(':', Spacing::Alone));
    assert(stream_view(final(v)@) =~= stream_view(old(v)@) + path_sep());
}

} // verus!
