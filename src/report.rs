//! Rendering a diagnostic as a `compile_error!` invocation.
use crate::token::{
    push_token, stream_view, string_literal_text, Delimiter, Group, Ident, Literal, Punct,
    Spacing, Span, TokenTree, TokenView,
};
use vstd::prelude::*;

verus! {

/// `::core::compile_error!{"message"}`, every token at `span`.
pub open spec fn error_report_tokens(message: Seq<char>, span: Span) -> Seq<TokenView> {
    seq![
        TokenView::Punct(':', Spacing::Joint, span),
        TokenView::Punct(':', Spacing::Alone, span),
        TokenView::Ident("core"@, span),
        TokenView::Punct(':', Spacing::Joint, span),
        TokenView::Punct(':', Spacing::Alone, span),
        TokenView::Ident("compile_error"@, span),
        TokenView::Punct('!', Spacing::Alone, span),
        TokenView::Group(
            Delimiter::Brace,
            seq![TokenView::Literal(string_literal_text(message), span)],
            span,
        ),
    ]
}

fn punct_at(ch: char, spacing: Spacing, span: Span) -> (r: TokenTree)
    ensures
        r == TokenTree::Punct(Punct { ch, spacing, span }),
{
    TokenTree::Punct(Punct { ch, spacing, span })
}

/// The tokens that make the compiler report `message` at `span`.
pub fn to_error_report(message: &str, span: Span) -> (r: Vec<TokenTree>)
    ensures
        stream_view(r@) == error_report_tokens(message@, span),
{
    let mut string = Literal::string(message);
    string.span = span;
    let mut args: Vec<TokenTree> = Vec::new();
    push_token(&mut args, TokenTree::Literal(string));
    let ghost args_view = stream_view(args@);
    let mut ts: Vec<TokenTree> = Vec::new();
    push_token(&mut ts, punct_at(':', Spacing::Joint, span));
    push_token(&mut ts, punct_at(':', Spacing::Alone, span));
    push_token(&mut ts, TokenTree::Ident(Ident::new("core", span)));
    push_token(&mut ts, punct_at(':', Spacing::Joint, span));
    push_token(&mut ts, punct_at(':', Spacing::Alone, span));
    push_token(&mut ts, TokenTree::Ident(Ident::new("compile_error", span)));
    push_token(&mut ts, punct_at('!', Spacing::Alone, span));
    let mut group = Group::new(Delimiter::Brace, args);
    group.span = span;
    push_token(&mut ts, TokenTree::Group(group));
    assert(args_view =~= seq![TokenView::Literal(string_literal_text(message@), span)]);
    assert(stream_view(ts@) =~= error_report_tokens(message@, span));
    ts
}

} // verus!
