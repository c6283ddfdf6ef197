//! A source transformer for `async fn` items: it reads a configuration
//! (`duration = ..., on_error = ...`) and rewrites the function's body so
//! that it runs under `tokio::time::timeout`, with the configured reaction
//! when time runs out. Every failure becomes a `compile_error!` invocation
//! in place of the output.
use vstd::prelude::*;

pub mod report;
pub mod duration;
pub mod error;
pub mod inject;
pub mod parse_attr;
pub mod parse_duration;
pub mod token;

use crate::report::{error_report_tokens, to_error_report};
use crate::error::{message_of, Error};
use crate::inject::{extract_spec, try_inject, Injector};
use crate::parse_attr::{
    attr_spec, duration_tokens, on_error_tokens, parse_attr, DurationView, OnErrorView, OptsView,
    ValidOpts,
};
use crate::token::{
    call_site_group, call_site_ident, call_site_punct, extend_stream, group_token, ident_token,
    path_sep, punct_token, push_path_sep, push_token, stream_view, Delimiter, Spacing, Span,
    TokenTree, TokenView,
};

verus! {

/// Wraps a function body in `tokio::time::timeout`, as a validated
/// configuration says.
pub struct TokioTimeoutInjector(pub ValidOpts);

/// The arguments of the `timeout` call: the duration, then the old body as
/// an `async` block.
pub open spec fn timeout_call_args(d: DurationView, body: Seq<TokenTree>) -> Seq<TokenView> {
    duration_tokens(d) + seq![
        call_site_punct(',', Spacing::Alone),
        call_site_ident("async"@),
        call_site_group(Delimiter::Brace, stream_view(body)),
    ]
}

/// `Ok(v) => v, Err(_) => <on_error>`.
pub open spec fn timeout_arms(o: OnErrorView) -> Seq<TokenView> {
    seq![
        call_site_ident("Ok"@),
        call_site_group(Delimiter::Parenthesis, seq![call_site_ident("v"@)]),
        call_site_punct('=', Spacing::Joint),
        call_site_punct('>', Spacing::Alone),
        call_site_ident("v"@),
        call_site_punct(',', Spacing::Alone),
        call_site_ident("Err"@),
        call_site_group(Delimiter::Parenthesis, seq![call_site_ident("_"@)]),
        call_site_punct('=', Spacing::Joint),
        call_site_punct('>', Spacing::Alone),
    ] + on_error_tokens(o)
}

/// `{ match tokio::time::timeout(<duration>, async { <body> }).await { <arms> } }`.
pub open spec fn timeout_block(opts: OptsView, body: Seq<TokenTree>) -> TokenView {
    call_site_group(
        Delimiter::Brace,
        seq![call_site_ident("match"@), call_site_ident("tokio"@)] + path_sep() + seq![
            call_site_ident("time"@),
        ] + path_sep() + seq![
            call_site_ident("timeout"@),
            call_site_group(Delimiter::Parenthesis, timeout_call_args(opts.duration, body)),
            call_site_punct('.', Spacing::Alone),
            call_site_ident("await"@),
            call_site_group(Delimiter::Brace, timeout_arms(opts.on_error)),
        ],
    )
}

impl Injector for TokioTimeoutInjector {
    open spec fn injection(&self, fn_name: Seq<char>, inner_code: Seq<TokenTree>) -> Seq<
        TokenView,
    > {
        seq![timeout_block(self.0@, inner_code)]
    }

    fn inject(self, fn_name: &str, inner_code: Vec<TokenTree>) -> (r: Vec<TokenTree>) {
        let ghost opts = self.0@;
        let ghost body = inner_code@;
        let ValidOpts { duration, on_error } = self.0;
        let dur = duration.into_token_stream();
        let on_timeout = on_error.into_token_stream();

        let mut timeout_args = dur;
        push_token(&mut timeout_args, punct_token(',', Spacing::Alone));
        push_token(&mut timeout_args, ident_token("async"));
        push_token(&mut timeout_args, group_token(Delimiter::Brace, inner_code));
        assert(stream_view(timeout_args@) =~= timeout_call_args(opts.duration, body));

        let mut value_group: Vec<TokenTree> = Vec::new();
        push_token(&mut value_group, ident_token("v"));
        let mut err_group: Vec<TokenTree> = Vec::new();
        push_token(&mut err_group, ident_token("_"));
        let mut match_body: Vec<TokenTree> = Vec::new();
        push_token(&mut match_body, ident_token("Ok"));
        push_token(&mut match_body, group_token(Delimiter::Parenthesis, value_group));
        push_token(&mut match_body, punct_token('=', Spacing::Joint));
        push_token(&mut match_body, punct_token('>', Spacing::Alone));
        push_token(&mut match_body, ident_token("v"));
        push_token(&mut match_body, punct_token(',', Spacing::Alone));
        push_token(&mut match_body, ident_token("Err"));
        push_token(&mut match_body, group_token(Delimiter::Parenthesis, err_group));
        push_token(&mut match_body, punct_token('=', Spacing::Joint));
        push_token(&mut match_body, punct_token('>', Spacing::Alone));
        extend_stream(&mut match_body, on_timeout);
        assert(stream_view(match_body@) =~= timeout_arms(opts.on_error));

        let mut inner: Vec<TokenTree> = Vec::new();
        push_token(&mut inner, ident_token("match"));
        push_token(&mut inner, ident_token("tokio"));
        push_path_sep(&mut inner);
        push_token(&mut inner, ident_token("time"));
        push_path_sep(&mut inner);
        push_token(&mut inner, ident_token("timeout"));
        push_token(&mut inner, group_token(Delimiter::Parenthesis, timeout_args));
        push_token(&mut inner, punct_token('.', Spacing::Alone));
        push_token(&mut inner, ident_token("await"));
        push_token(&mut inner, group_token(Delimiter::Brace, match_body));
        assert(stream_view(inner@) =~= seq![call_site_ident("match"@), call_site_ident("tokio"@)]
            + path_sep() + seq![call_site_ident("time"@)] + path_sep() + seq![
            call_site_ident("timeout"@),
            call_site_group(Delimiter::Parenthesis, timeout_call_args(opts.duration, body)),
            call_site_punct('.', Spacing::Alone),
            call_site_ident("await"@),
            call_site_group(Delimiter::Brace, timeout_arms(opts.on_error)),
        ]);

        let mut out: Vec<TokenTree> = Vec::new();
        push_token(&mut out, group_token(Delimiter::Brace, inner));
        assert(stream_view(out@) =~= seq![timeout_block(opts, body)]);
        out
    }
}

/// The tokens that report the error `e`, placed at `fallback` where it has
/// no position of its own.
pub open spec fn diagnostic_tokens(e: Error, fallback: Span) -> Seq<TokenView> {
    match e.position_or(fallback) {
        Error::Positioned(kind, span) => error_report_tokens(message_of(kind), span),
        Error::PositionMissing(kind) => error_report_tokens(message_of(kind), fallback),
    }
}

/// What the transformation gives for the configuration `attr` and the item
/// `item`: the item's tokens before its body followed by the guarded body,
/// or a `compile_error!` for the first error, in the configuration first.
pub open spec fn transform_spec(
    attr: Seq<TokenTree>,
    attr_span: Span,
    item: Seq<TokenTree>,
    item_span: Span,
) -> Seq<TokenView> {
    match attr_spec(attr) {
        Err(e) => diagnostic_tokens(e, attr_span),
        Ok(opts) => match extract_spec(item) {
            Err(e) => diagnostic_tokens(e, item_span),
            Ok(x) => stream_view(x.preamble).push(timeout_block(opts, x.body)),
        },
    }
}

/// Reports `e` as tokens, at `fallback` where it has no position.
fn report(e: Error, fallback: Span) -> (r: Vec<TokenTree>)
    ensures
        stream_view(r@) == diagnostic_tokens(e, fallback),
{
    let d = e.into_to_syn_with_fallback_span(fallback);
    let message = d.kind.message();
    to_error_report(message.as_str(), d.span)
}

/// Applies the timeout transformation to the item `item`, configured by
/// `attr`. `attr_span` and `item_span` are where errors without a finer
/// position of their own are reported.
pub fn tokio_timeout(
    attr: Vec<TokenTree>,
    attr_span: Span,
    item: Vec<TokenTree>,
    item_span: Span,
) -> (r: Vec<TokenTree>)
    ensures
        stream_view(r@) == transform_spec(attr@, attr_span, item@, item_span),
{
    let validated = match parse_attr(attr) {
        Ok(o) => o,
        Err(e) => return report(e, attr_span),
    };
    let injector = TokioTimeoutInjector(validated);
    match try_inject(injector, item) {
        Ok(o) => {
            assert(stream_view(o@) =~= transform_spec(attr@, attr_span, item@, item_span));
            o
        },
        Err(e) => report(e, item_span),
    }
}

} // verus!
