//! Taking an `async fn` item apart into its signature and its body, and
//! putting it back together around a new body.
use crate::error::{Error, ErrorKind};
use crate::token::{
    extend_stream, stream_view, token_span, Delimiter, Span, TokenTree,
    TokenView,
};
use vstd::prelude::*;

verus! {

/// Something that writes a new function body around an old one.
pub trait Injector: Sized {
    /// The tokens that replace the body `inner_code` of the function
    /// `fn_name`.
    spec fn injection(&self, fn_name: Seq<char>, inner_code: Seq<TokenTree>) -> Seq<TokenView>;

    fn inject(self, fn_name: &str, inner_code: Vec<TokenTree>) -> (r: Vec<TokenTree>)
        ensures
            stream_view(r@) == self.injection(fn_name@, inner_code@),
    ;
}

/// A function item taken apart.
pub struct ExtractedFunction {
    pub name: String,
    /// Every token before the body, as it was.
    pub preamble: Vec<TokenTree>,
    /// The tokens inside the body's braces.
    pub body: Vec<TokenTree>,
}

pub struct ExtractedView {
    pub name: Seq<char>,
    pub preamble: Seq<TokenTree>,
    pub body: Seq<TokenTree>,
}

impl View for ExtractedFunction {
    type V = ExtractedView;

    open spec fn view(&self) -> ExtractedView {
        ExtractedView { name: self.name@, preamble: self.preamble@, body: self.body@ }
    }
}

/// What the scan of an item has seen so far.
pub struct ItemScan {
    pub seen_async: bool,
    pub seen_fn: bool,
    pub name: Option<Seq<char>>,
}

pub open spec fn expecting_name(st: ItemScan) -> bool {
    st.seen_async && st.seen_fn && st.name is None
}

/// The scan's step over the token `t`: `async` and `fn` are noted, and the
/// identifier that follows both is the function's name; any other token
/// there is an error.
pub open spec fn item_step(t: TokenTree, st: ItemScan) -> Result<ItemScan, Error> {
    match t {
        TokenTree::Ident(id) => if id.name@ == "async"@ {
            Ok(ItemScan { seen_async: true, seen_fn: st.seen_fn, name: st.name })
        } else if id.name@ == "fn"@ {
            Ok(ItemScan { seen_async: st.seen_async, seen_fn: true, name: st.name })
        } else if expecting_name(st) {
            Ok(ItemScan { seen_async: st.seen_async, seen_fn: st.seen_fn, name: Some(id.name@) })
        } else {
            Ok(st)
        },
        _ => if expecting_name(st) {
            Err(Error::Positioned(ErrorKind::UnexpectedToken, token_span(t)))
        } else {
            Ok(st)
        },
    }
}

pub open spec fn item_scan_start() -> ItemScan {
    ItemScan { seen_async: false, seen_fn: false, name: None }
}

/// The scan over all of `toks`, or its first error.
pub open spec fn scan_item(toks: Seq<TokenTree>) -> Result<ItemScan, Error>
    decreases toks.len(),
{
    if toks.len() == 0 {
        Ok(item_scan_start())
    } else {
        match scan_item(toks.drop_last()) {
            Err(e) => Err(e),
            Ok(st) => item_step(toks.last(), st),
        }
    }
}

/// The parts of the function item `toks`, or what is wrong with it.
pub open spec fn extract_spec(toks: Seq<TokenTree>) -> Result<ExtractedView, Error> {
    match scan_item(toks) {
        Err(e) => Err(e),
        Ok(st) => if !st.seen_fn {
            Err(Error::PositionMissing(ErrorKind::MissingFunctionDeclaration))
        } else if !st.seen_async {
            Err(Error::PositionMissing(ErrorKind::NotAsyncFunction))
        } else {
            match toks.last() {
                TokenTree::Group(g) => if g.delimiter != Delimiter::Brace {
                    Err(Error::Positioned(ErrorKind::MissingFunctionBody, g.span))
                } else {
                    match st.name {
                        None => Err(
                            Error::Positioned(ErrorKind::MissingFunctionName, Span::CallSite),
                        ),
                        Some(name) => Ok(
                            ExtractedView { name, preamble: toks.drop_last(), body: g.stream@ },
                        ),
                    }
                },
                _ => Err(Error::PositionMissing(ErrorKind::MissingFunctionBody)),
            }
        },
    }
}

/// Once the scan has failed, it stays failed.
proof fn lemma_scan_item_error_stays(toks: Seq<TokenTree>, k: int)
    requires
        0 <= k <= toks.len(),
        scan_item(toks.subrange(0, k)) is Err,
    ensures
        scan_item(toks) == scan_item(toks.subrange(0, k)),
    decreases toks.len(),
{
    if k == toks.len() {
        assert(toks.subrange(0, k) =~= toks);
    } else {
        assert(toks.drop_last().subrange(0, k) =~= toks.subrange(0, k));
        lemma_scan_item_error_stays(toks.drop_last(), k);
    }
}

/// `async` and `fn` have both been seen, but no name yet.
fn expecting(seen_async: bool, seen_fn: bool, name: &Option<String>) -> (r: bool)
    ensures
        r == (seen_async && seen_fn && name is None),
{
    seen_async && seen_fn && name.is_none()
}

fn name_is(name: &String, word: &str) -> (r: bool)
    ensures
        r == (name@ == word@),
{
    *name == String::from_str(word)
}

/// Takes the function item `source` apart into its name, the tokens before
/// its body, and its body.
pub fn extract_inner_body(source: Vec<TokenTree>) -> (r: Result<ExtractedFunction, Error>)
    ensures
        match extract_spec(source@) {
            Ok(x) => r matches Ok(f) && f@ == x,
            Err(e) => r == Err::<ExtractedFunction, Error>(e),
        },
{
    let mut seen_async = false;
    let mut seen_fn_decl = false;
    let mut fn_name: Option<String> = None;
    let mut k: usize = 0;
    while k < source.len()
        invariant
            k <= source.len(),
            scan_item(source@.subrange(0, k as int)) == Ok::<ItemScan, Error>(
                ItemScan {
                    seen_async,
                    seen_fn: seen_fn_decl,
                    name: match fn_name {
                        Some(n) => Some(n@),
                        None => None,
                    },
                },
            ),
        decreases source.len() - k,
    {
        assert(source@.subrange(0, k + 1).drop_last() =~= source@.subrange(0, k as int));
        match &source[k] {
            TokenTree::Ident(id) => {
                if name_is(&id.name, "async") {
                    seen_async = true;
                } else if name_is(&id.name, "fn") {
                    seen_fn_decl = true;
                } else if expecting(seen_async, seen_fn_decl, &fn_name) {
                    fn_name = Some(id.name.clone());
                }
            },
            t => {
                if expecting(seen_async, seen_fn_decl, &fn_name) {
                    proof {
                        lemma_scan_item_error_stays(source@, k + 1);
                    }
                    return Err(Error::with_span(t.span(), ErrorKind::UnexpectedToken));
                }
            },
        }
        k = k + 1;
    }
    assert(source@.subrange(0, k as int) =~= source@);
    if !seen_fn_decl {
        return Err(Error::missing_span(ErrorKind::MissingFunctionDeclaration));
    }
    if !seen_async {
        return Err(Error::missing_span(ErrorKind::NotAsyncFunction));
    }
    let mut preamble = source;
    let last = preamble.pop();
    let group = match last {
        Some(TokenTree::Group(g)) => g,
        _ => return Err(Error::missing_span(ErrorKind::MissingFunctionBody)),
    };
    match group.delimiter {
        Delimiter::Brace => {},
        _ => return Err(Error::with_span(group.span, ErrorKind::MissingFunctionBody)),
    }
    match fn_name {
        None => Err(Error::with_span(Span::CallSite, ErrorKind::MissingFunctionName)),
        Some(name) => Ok(ExtractedFunction { name, preamble, body: group.stream }),
    }
}

/// Rewrites the function item `source`: its body is replaced by what
/// `injector` writes around it.
pub fn try_inject<I: Injector>(injector: I, source: Vec<TokenTree>) -> (r: Result<
    Vec<TokenTree>,
    Error,
>)
    ensures
        match extract_spec(source@) {
            Ok(x) => r matches Ok(v) && stream_view(v@) == stream_view(x.preamble)
                + injector.injection(x.name, x.body),
            Err(e) => r == Err::<Vec<TokenTree>, Error>(e),
        },
{
    let parts = match extract_inner_body(source) {
        Ok(p) => p,
        Err(e) => return Err(e),
    };
    let ExtractedFunction { name, preamble, body } = parts;
    let res = injector.inject(name.as_str(), body);
    let mut pre = preamble;
    extend_stream(&mut pre, res);
    Ok(pre)
}

pub open spec fn is_ident_named(t: TokenTree, word: Seq<char>) -> bool {
    t matches TokenTree::Ident(id) && id.name@ == word
}

/// Some top-level token of `toks` is the identifier `word`.
pub open spec fn has_ident(toks: Seq<TokenTree>, word: Seq<char>) -> bool {
    exists|i: int| 0 <= i < toks.len() && is_ident_named(#[trigger] toks[i], word)
}

pub open spec fn is_brace_group(t: TokenTree) -> bool {
    t matches TokenTree::Group(g) && g.delimiter == Delimiter::Brace
}

proof fn lemma_has_ident_drop_last(toks: Seq<TokenTree>, word: Seq<char>)
    requires
        toks.len() > 0,
    ensures
        has_ident(toks, word) == (has_ident(toks.drop_last(), word) || is_ident_named(
            toks.last(),
            word,
        )),
{
    let p = toks.drop_last();
    if has_ident(toks, word) {
        let i = choose|i: int| 0 <= i < toks.len() && is_ident_named(#[trigger] toks[i], word);
        if i < p.len() {
            assert(p[i] == toks[i]);
        }
    }
    if has_ident(p, word) {
        let i = choose|i: int| 0 <= i < p.len() && is_ident_named(#[trigger] p[i], word);
        assert(toks[i] == p[i]);
    }
    if is_ident_named(toks.last(), word) {
        assert(is_ident_named(toks[toks.len() - 1], word));
    }
}

/// A scan that went through has noted exactly the keywords that occur.
proof fn lemma_scan_flags(toks: Seq<TokenTree>)
    requires
        scan_item(toks) is Ok,
    ensures
        scan_item(toks)->Ok_0.seen_async == has_ident(toks, "async"@),
        scan_item(toks)->Ok_0.seen_fn == has_ident(toks, "fn"@),
    decreases toks.len(),
{
    reveal_strlit("async");
    reveal_strlit("fn");
    if toks.len() > 0 {
        lemma_scan_flags(toks.drop_last());
        lemma_has_ident_drop_last(toks, "async"@);
        lemma_has_ident_drop_last(toks, "fn"@);
        let st = scan_item(toks.drop_last())->Ok_0;
        assert("async"@ != "fn"@) by {
            assert("async"@.len() != "fn"@.len());
        }
        match toks.last() {
            TokenTree::Ident(id) => {
                if id.name@ == "fn"@ {
                    assert(scan_item(toks)->Ok_0.seen_fn);
                } else {
                    assert(!is_ident_named(toks.last(), "fn"@));
                }
            },
            _ => {},
        }
    }
}

/// Without both keywords, no token is out of place and no name is taken.
proof fn lemma_scan_without_both(toks: Seq<TokenTree>)
    requires
        !has_ident(toks, "fn"@) || !has_ident(toks, "async"@),
    ensures
        scan_item(toks) == Ok::<ItemScan, Error>(
            ItemScan {
                seen_async: has_ident(toks, "async"@),
                seen_fn: has_ident(toks, "fn"@),
                name: None,
            },
        ),
    decreases toks.len(),
{
    if toks.len() > 0 {
        lemma_has_ident_drop_last(toks, "async"@);
        lemma_has_ident_drop_last(toks, "fn"@);
        lemma_scan_without_both(toks.drop_last());
    }
}

/// An item without the `fn` keyword is refused for that.
pub proof fn lemma_missing_fn_rejected(toks: Seq<TokenTree>)
    requires
        !has_ident(toks, "fn"@),
    ensures
        extract_spec(toks) == Err::<ExtractedView, Error>(
            Error::PositionMissing(ErrorKind::MissingFunctionDeclaration),
        ),
{
    lemma_scan_without_both(toks);
}

/// An item with the `fn` keyword but not the `async` one is refused for not
/// being asynchronous.
pub proof fn lemma_missing_async_rejected(toks: Seq<TokenTree>)
    requires
        has_ident(toks, "fn"@),
        !has_ident(toks, "async"@),
    ensures
        extract_spec(toks) == Err::<ExtractedView, Error>(
            Error::PositionMissing(ErrorKind::NotAsyncFunction),
        ),
{
    lemma_scan_without_both(toks);
}

pub open spec fn error_kind(e: Error) -> ErrorKind {
    match e {
        Error::Positioned(kind, _) => kind,
        Error::PositionMissing(kind) => kind,
    }
}

/// An `async fn` item with no token out of place whose last token is not a
/// braced group is refused for lacking a body.
pub proof fn lemma_missing_body_rejected(toks: Seq<TokenTree>)
    requires
        has_ident(toks, "fn"@),
        has_ident(toks, "async"@),
        scan_item(toks) is Ok,
        !is_brace_group(toks.last()),
    ensures
        extract_spec(toks) matches Err(e) && error_kind(e) == ErrorKind::MissingFunctionBody,
{
    lemma_scan_flags(toks);
}

} // verus!
