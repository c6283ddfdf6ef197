//! The configuration grammar: `key = value` clauses separated by commas,
//! with the keys `duration` and `on_error`, each given exactly once.
use crate::duration::{Duration, NANOS_PER_SEC};
use crate::error::{Attribute, Error, ErrorKind};
use crate::parse_duration::{
    all_digits, decimal_value, duration_nanos, is_digit, trim_quotes, trimmed_chars,
};
use crate::token::{
    call_site_group, call_site_ident, call_site_literal, call_site_punct, decimal_digits, digit_char,
    group_token, ident_token, path_sep, punct_token, push_path_sep, push_token,
    stream_view, string_literal_text, token_span, token_view, Delimiter, Literal, Spacing,
    TokenTree, TokenView,
};
use vstd::prelude::*;

verus! {

/// A validated configuration.
pub struct ValidOpts {
    pub duration: ParsedDuration,
    pub on_error: OnError,
}

/// The time bound of a configuration.
pub enum ParsedDuration {
    /// A duration given as a literal.
    Duration(Duration),
    /// Tokens naming a duration value, kept as they were written.
    Ref(Vec<TokenTree>),
}

/// What the generated code does when time runs out.
pub enum OnError {
    /// Panic with the message `"timeout"`.
    Panic,
    /// Call the callable that these tokens name with `"timeout"`.
    Callable(Vec<TokenTree>),
}

/// The value of a [`ParsedDuration`]: a literal's length in nanoseconds, or
/// the tokens of a reference.
pub enum DurationView {
    Literal(nat),
    Reference(Seq<TokenTree>),
}

pub enum OnErrorView {
    Panic,
    Callable(Seq<TokenTree>),
}

pub struct OptsView {
    pub duration: DurationView,
    pub on_error: OnErrorView,
}

impl View for ParsedDuration {
    type V = DurationView;

    open spec fn view(&self) -> DurationView {
        match self {
            ParsedDuration::Duration(d) => DurationView::Literal(d@),
            ParsedDuration::Ref(v) => DurationView::Reference(v@),
        }
    }
}

impl View for OnError {
    type V = OnErrorView;

    open spec fn view(&self) -> OnErrorView {
        match self {
            OnError::Panic => OnErrorView::Panic,
            OnError::Callable(v) => OnErrorView::Callable(v@),
        }
    }
}

impl View for ValidOpts {
    type V = OptsView;

    open spec fn view(&self) -> OptsView {
        OptsView { duration: self.duration@, on_error: self.on_error@ }
    }
}

// The grammar, over the configuration's tokens. A value that is not a
// literal is a run of tokens, recorded as the index range `[start, end)`.
/// Where a `duration` value stands.
pub enum DurationSlot {
    Literal(nat),
    Ref(int, int),
}

/// Where an `on_error` value stands.
pub enum OnErrorSlot {
    Panic,
    Ref(int, int),
}

/// The values found so far.
pub struct Slots {
    pub duration: Option<DurationSlot>,
    pub on_error: Option<OnErrorSlot>,
}

pub open spec fn no_slots() -> Slots {
    Slots { duration: None, on_error: None }
}

pub open spec fn is_punct(t: TokenTree, c: char) -> bool {
    t matches TokenTree::Punct(p) && p.ch == c
}

/// The index of the first comma at or after `i`, or the end.
pub open spec fn value_end(toks: Seq<TokenTree>, i: int) -> int
    decreases toks.len() - i,
{
    if i >= toks.len() {
        toks.len() as int
    } else if is_punct(toks[i], ',') {
        i
    } else {
        value_end(toks, i + 1)
    }
}

/// The `duration` value at `i`, and the index after it: a literal is read
/// as a duration literal; anything else starts a run of tokens up to the
/// next comma.
pub open spec fn duration_value(toks: Seq<TokenTree>, i: int) -> Result<(DurationSlot, int), Error> {
    match toks[i] {
        TokenTree::Literal(l) => match duration_nanos(l.text@) {
            Ok(t) => Ok((DurationSlot::Literal(t as nat), i + 1)),
            Err(e) => Err(Error::Positioned(ErrorKind::InvalidDuration(e), l.span)),
        },
        _ => Ok((DurationSlot::Ref(i, value_end(toks, i)), value_end(toks, i))),
    }
}

/// The `on_error` value at `i`, and the index after it: the only literal
/// accepted is `"panic"`; anything else starts a run of tokens up to the
/// next comma.
pub open spec fn on_error_value(toks: Seq<TokenTree>, i: int) -> Result<(OnErrorSlot, int), Error> {
    match toks[i] {
        TokenTree::Literal(l) => if trim_quotes(l.text@) == "panic"@ {
            Ok((OnErrorSlot::Panic, i + 1))
        } else {
            Err(Error::Positioned(ErrorKind::UnsupportedLiteral, l.span))
        },
        _ => Ok((OnErrorSlot::Ref(i, value_end(toks, i)), value_end(toks, i))),
    }
}

/// What is wrong with the `=` that should follow the key at `k`, if
/// anything.
pub open spec fn equals_error(toks: Seq<TokenTree>, k: int, attr: Attribute) -> Option<Error> {
    if k + 1 >= toks.len() {
        Some(Error::Positioned(ErrorKind::MissingEquals(attr), token_span(toks[k])))
    } else if is_punct(toks[k + 1], '=') {
        None
    } else {
        Some(Error::Positioned(ErrorKind::MissingEquals(attr), token_span(toks[k + 1])))
    }
}

/// The clause whose key, `attr`, stands at `k`.
pub open spec fn clause(toks: Seq<TokenTree>, k: int, attr: Attribute, acc: Slots) -> Result<
    (int, Slots),
    Error,
> {
    let key_span = token_span(toks[k]);
    let seen = match attr {
        Attribute::Duration => acc.duration is Some,
        Attribute::OnError => acc.on_error is Some,
    };
    if seen {
        Err(Error::Positioned(ErrorKind::DuplicateAttribute(attr), key_span))
    } else if equals_error(toks, k, attr) is Some {
        Err(equals_error(toks, k, attr)->Some_0)
    } else if k + 2 >= toks.len() {
        Err(Error::Positioned(ErrorKind::MissingValue(attr), key_span))
    } else {
        match attr {
            Attribute::Duration => match duration_value(toks, k + 2) {
                Err(e) => Err(e),
                Ok((v, j)) => Ok((j, Slots { duration: Some(v), on_error: acc.on_error })),
            },
            Attribute::OnError => match on_error_value(toks, k + 2) {
                Err(e) => Err(e),
                Ok((v, j)) => Ok((j, Slots { duration: acc.duration, on_error: Some(v) })),
            },
        }
    }
}

/// One step of the scan at `i`: a comma is passed over, a key starts a
/// clause, anything else is an error.
pub open spec fn attr_step(toks: Seq<TokenTree>, i: int, acc: Slots) -> Result<(int, Slots), Error> {
    match toks[i] {
        TokenTree::Punct(p) => if p.ch == ',' {
            Ok((i + 1, acc))
        } else {
            Err(Error::Positioned(ErrorKind::UnexpectedToken, p.span))
        },
        TokenTree::Ident(id) => if id.name@ == "duration"@ {
            clause(toks, i, Attribute::Duration, acc)
        } else if id.name@ == "on_error"@ {
            clause(toks, i, Attribute::OnError, acc)
        } else {
            Err(Error::Positioned(ErrorKind::UnknownAttribute(id.name), id.span))
        },
        TokenTree::Group(g) => Err(Error::Positioned(ErrorKind::UnexpectedToken, g.span)),
        TokenTree::Literal(l) => Err(Error::Positioned(ErrorKind::UnexpectedToken, l.span)),
    }
}

/// The values of the configuration from `i` on, or its first error.
pub open spec fn scan_attr(toks: Seq<TokenTree>, i: int, acc: Slots) -> Result<Slots, Error>
    decreases toks.len() - i,
    via scan_attr_decreases
{
    if i < 0 || i >= toks.len() {
        Ok(acc)
    } else {
        match attr_step(toks, i, acc) {
            Err(e) => Err(e),
            Ok((j, next)) => scan_attr(toks, j, next),
        }
    }
}

proof fn lemma_value_end(toks: Seq<TokenTree>, i: int)
    requires
        i <= toks.len(),
    ensures
        i <= value_end(toks, i) <= toks.len(),
    decreases toks.len() - i,
{
    if i < toks.len() && !is_punct(toks[i], ',') {
        lemma_value_end(toks, i + 1);
    }
}

/// Each step moves forward, and stays within the tokens.
proof fn lemma_step_advances(toks: Seq<TokenTree>, i: int, acc: Slots)
    requires
        0 <= i < toks.len(),
    ensures
        attr_step(toks, i, acc) matches Ok((j, _)) ==> i < j <= toks.len(),
{
    if i + 2 < toks.len() {
        lemma_value_end(toks, i + 2);
    }
}

#[via_fn]
proof fn scan_attr_decreases(toks: Seq<TokenTree>, i: int, acc: Slots) {
    if 0 <= i < toks.len() {
        lemma_step_advances(toks, i, acc);
    }
}

pub open spec fn duration_of_slot(toks: Seq<TokenTree>, s: DurationSlot) -> DurationView {
    match s {
        DurationSlot::Literal(t) => DurationView::Literal(t),
        DurationSlot::Ref(a, b) => DurationView::Reference(toks.subrange(a, b)),
    }
}

pub open spec fn on_error_of_slot(toks: Seq<TokenTree>, s: OnErrorSlot) -> OnErrorView {
    match s {
        OnErrorSlot::Panic => OnErrorView::Panic,
        OnErrorSlot::Ref(a, b) => OnErrorView::Callable(toks.subrange(a, b)),
    }
}

/// The validated configuration that the tokens `toks` write, or the first
/// error in them.
pub open spec fn attr_spec(toks: Seq<TokenTree>) -> Result<OptsView, Error> {
    match scan_attr(toks, 0, no_slots()) {
        Err(e) => Err(e),
        Ok(s) => match s.duration {
            None => Err(Error::PositionMissing(ErrorKind::MissingAttribute(Attribute::Duration))),
            Some(d) => match s.on_error {
                None => Err(Error::PositionMissing(ErrorKind::MissingAttribute(Attribute::OnError))),
                Some(o) => Ok(
                    OptsView {
                        duration: duration_of_slot(toks, d),
                        on_error: on_error_of_slot(toks, o),
                    },
                ),
            },
        },
    }
}

/// The recorded runs lie before `i` and do not overlap.
pub open spec fn slots_before(s: Slots, i: int) -> bool {
    &&& (s.duration matches Some(DurationSlot::Ref(a, b)) ==> 0 <= a <= b <= i)
    &&& (s.on_error matches Some(OnErrorSlot::Ref(c, d)) ==> 0 <= c <= d <= i)
    &&& (s.duration matches Some(DurationSlot::Ref(a, b)) ==> (s.on_error matches Some(
        OnErrorSlot::Ref(c, d),
    ) ==> b <= c || d <= a))
}

proof fn lemma_step_keeps_order(toks: Seq<TokenTree>, i: int, acc: Slots)
    requires
        0 <= i < toks.len(),
        slots_before(acc, i),
    ensures
        attr_step(toks, i, acc) matches Ok((j, next)) ==> slots_before(next, j),
{
    lemma_step_advances(toks, i, acc);
    if i + 2 < toks.len() {
        lemma_value_end(toks, i + 2);
    }
}

/// Where a `duration` value stands, as the scan finds it.
enum DurationPick {
    Literal(Duration),
    Ref(usize, usize),
}

/// Where an `on_error` value stands, as the scan finds it.
enum OnErrorPick {
    Panic,
    Ref(usize, usize),
}

struct Opts {
    duration: Option<DurationPick>,
    on_error: Option<OnErrorPick>,
}

impl View for DurationPick {
    type V = DurationSlot;

    closed spec fn view(&self) -> DurationSlot {
        match self {
            DurationPick::Literal(d) => DurationSlot::Literal(d@),
            DurationPick::Ref(a, b) => DurationSlot::Ref(*a as int, *b as int),
        }
    }
}

impl View for OnErrorPick {
    type V = OnErrorSlot;

    closed spec fn view(&self) -> OnErrorSlot {
        match self {
            OnErrorPick::Panic => OnErrorSlot::Panic,
            OnErrorPick::Ref(a, b) => OnErrorSlot::Ref(*a as int, *b as int),
        }
    }
}

impl View for Opts {
    type V = Slots;

    closed spec fn view(&self) -> Slots {
        Slots {
            duration: match self.duration {
                Some(d) => Some(d@),
                None => None,
            },
            on_error: match self.on_error {
                Some(o) => Some(o@),
                None => None,
            },
        }
    }
}

fn punct_is(t: &TokenTree, c: char) -> (r: bool)
    ensures
        r == is_punct(*t, c),
{
    match t {
        TokenTree::Punct(p) => p.ch == c,
        _ => false,
    }
}

fn name_is(name: &String, word: &str) -> (r: bool)
    ensures
        r == (name@ == word@),
{
    *name == String::from_str(word)
}

/// The index of the first comma at or after `i`, or the end.
fn value_run_end(toks: &Vec<TokenTree>, i: usize) -> (r: usize)
    requires
        i <= toks.len(),
    ensures
        r == value_end(toks@, i as int),
{
    let mut k = i;
    while k < toks.len() && !punct_is(&toks[k], ',')
        invariant
            i <= k <= toks.len(),
            value_end(toks@, i as int) == value_end(toks@, k as int),
        decreases toks.len() - k,
    {
        k = k + 1;
    }
    k
}

/// Checks that the key at `k` is followed by `=`.
fn take_next_equals(toks: &Vec<TokenTree>, k: usize, attr: Attribute) -> (r: Result<(), Error>)
    requires
        k < toks.len(),
    ensures
        match equals_error(toks@, k as int, attr) {
            Some(e) => r == Err::<(), Error>(e),
            None => r == Ok::<(), Error>(()),
        },
{
    if k + 1 >= toks.len() {
        return Err(
            Error::missing_span(ErrorKind::MissingEquals(attr)).with_span_if_missing(
                toks[k].span(),
            ),
        );
    }
    match &toks[k + 1] {
        TokenTree::Punct(p) => {
            if p.ch == '=' {
                Ok(())
            } else {
                Err(Error::with_span(p.span, ErrorKind::MissingEquals(attr)))
            }
        },
        t => Err(Error::with_span(t.span(), ErrorKind::MissingEquals(attr))),
    }
}

/// Reads the `duration` value at `i`.
fn parse_duration(toks: &Vec<TokenTree>, i: usize) -> (r: Result<(DurationPick, usize), Error>)
    requires
        i < toks.len(),
    ensures
        match duration_value(toks@, i as int) {
            Ok((v, j)) => r matches Ok((p, k)) && p@ == v && k == j,
            Err(e) => r == Err::<(DurationPick, usize), Error>(e),
        },
{
    match &toks[i] {
        TokenTree::Literal(l) => match crate::parse_duration::parse_duration(l.text.as_str()) {
            Ok(d) => Ok((DurationPick::Literal(d), i + 1)),
            Err(e) => Err(Error::with_span(l.span, ErrorKind::InvalidDuration(e))),
        },
        _ => {
            let end = value_run_end(toks, i);
            Ok((DurationPick::Ref(i, end), end))
        },
    }
}

fn is_panic_word(t: &Vec<char>) -> (r: bool)
    ensures
        r == (t@ == "panic"@),
{
    proof {
        reveal_strlit("panic");
    }
    if t.len() == 5 && t[0] == 'p' && t[1] == 'a' && t[2] == 'n' && t[3] == 'i' && t[4] == 'c' {
        assert(t@ =~= "panic"@);
        true
    } else {
        false
    }
}

/// Reads the `on_error` value at `i`.
fn parse_on_error(toks: &Vec<TokenTree>, i: usize) -> (r: Result<(OnErrorPick, usize), Error>)
    requires
        i < toks.len(),
    ensures
        match on_error_value(toks@, i as int) {
            Ok((v, j)) => r matches Ok((p, k)) && p@ == v && k == j,
            Err(e) => r == Err::<(OnErrorPick, usize), Error>(e),
        },
{
    match &toks[i] {
        TokenTree::Literal(l) => {
            let text = trimmed_chars(l.text.as_str());
            if is_panic_word(&text) {
                Ok((OnErrorPick::Panic, i + 1))
            } else {
                Err(Error::with_span(l.span, ErrorKind::UnsupportedLiteral))
            }
        },
        _ => {
            let end = value_run_end(toks, i);
            Ok((OnErrorPick::Ref(i, end), end))
        },
    }
}

/// Reads the clause whose key, `attr`, stands at `k`.
fn take_clause(toks: &Vec<TokenTree>, k: usize, attr: Attribute, cur: &mut Opts) -> (r: Result<
    usize,
    Error,
>)
    requires
        k < toks.len(),
    ensures
        match clause(toks@, k as int, attr, old(cur)@) {
            Ok((j, s)) => r == Ok::<usize, Error>(j as usize) && final(cur)@ == s,
            Err(e) => r == Err::<usize, Error>(e),
        },
{
    let key_span = toks[k].span();
    let seen = match attr {
        Attribute::Duration => cur.duration.is_some(),
        Attribute::OnError => cur.on_error.is_some(),
    };
    if seen {
        return Err(Error::with_span(key_span, ErrorKind::DuplicateAttribute(attr)));
    }
    match take_next_equals(toks, k, attr) {
        Ok(()) => {},
        Err(e) => return Err(e),
    }
    if k + 2 >= toks.len() {
        return Err(
            Error::missing_span(ErrorKind::MissingValue(attr)).with_span_if_missing(key_span),
        );
    }
    match attr {
        Attribute::Duration => match parse_duration(toks, k + 2) {
            Ok((v, j)) => {
                cur.duration = Some(v);
                Ok(j)
            },
            Err(e) => Err(e),
        },
        Attribute::OnError => match parse_on_error(toks, k + 2) {
            Ok((v, j)) => {
                cur.on_error = Some(v);
                Ok(j)
            },
            Err(e) => Err(e),
        },
    }
}

/// Takes one step of the scan at `i`, and gives the index of the next.
fn take_next(toks: &Vec<TokenTree>, i: usize, cur: &mut Opts) -> (r: Result<usize, Error>)
    requires
        i < toks.len(),
    ensures
        match attr_step(toks@, i as int, old(cur)@) {
            Ok((j, s)) => r == Ok::<usize, Error>(j as usize) && final(cur)@ == s,
            Err(e) => r == Err::<usize, Error>(e),
        },
{
    match &toks[i] {
        TokenTree::Punct(p) => {
            if p.ch == ',' {
                Ok(i + 1)
            } else {
                Err(Error::with_span(p.span, ErrorKind::UnexpectedToken))
            }
        },
        TokenTree::Ident(id) => {
            if name_is(&id.name, "duration") {
                take_clause(toks, i, Attribute::Duration, cur)
            } else if name_is(&id.name, "on_error") {
                take_clause(toks, i, Attribute::OnError, cur)
            } else {
                Err(Error::with_span(id.span, ErrorKind::UnknownAttribute(id.name.clone())))
            }
        },
        TokenTree::Group(g) => Err(Error::with_span(g.span, ErrorKind::UnexpectedToken)),
        TokenTree::Literal(l) => Err(Error::with_span(l.span, ErrorKind::UnexpectedToken)),
    }
}

/// Moves the tokens `start..end` out of `toks`, dropping those after them.
fn take_run(toks: &mut Vec<TokenTree>, start: usize, end: usize) -> (r: Vec<TokenTree>)
    requires
        start <= end <= old(toks).len(),
    ensures
        r@ == old(toks)@.subrange(start as int, end as int),
        final(toks)@ == old(toks)@.subrange(0, start as int),
{
    let mut run = toks.split_off(start);
    run.truncate(end - start);
    assert(run@ =~= old(toks)@.subrange(start as int, end as int));
    run
}

/// Builds the configuration from where its values stand in `toks`.
fn build_opts(toks: Vec<TokenTree>, d: DurationPick, o: OnErrorPick) -> (r: ValidOpts)
    requires
        slots_before(Slots { duration: Some(d@), on_error: Some(o@) }, toks@.len() as int),
    ensures
        r@ == (OptsView {
            duration: duration_of_slot(toks@, d@),
            on_error: on_error_of_slot(toks@, o@),
        }),
{
    let ghost all = toks@;
    let mut toks = toks;
    match (d, o) {
        (DurationPick::Ref(a, b), OnErrorPick::Ref(c, e)) => {
            if b <= c {
                let callable = take_run(&mut toks, c, e);
                let reference = take_run(&mut toks, a, b);
                assert(all.subrange(0, c as int).subrange(a as int, b as int) =~= all.subrange(
                    a as int,
                    b as int,
                ));
                ValidOpts {
                    duration: ParsedDuration::Ref(reference),
                    on_error: OnError::Callable(callable),
                }
            } else {
                let reference = take_run(&mut toks, a, b);
                let callable = take_run(&mut toks, c, e);
                assert(all.subrange(0, a as int).subrange(c as int, e as int) =~= all.subrange(
                    c as int,
                    e as int,
                ));
                ValidOpts {
                    duration: ParsedDuration::Ref(reference),
                    on_error: OnError::Callable(callable),
                }
            }
        },
        (DurationPick::Ref(a, b), OnErrorPick::Panic) => ValidOpts {
            duration: ParsedDuration::Ref(take_run(&mut toks, a, b)),
            on_error: OnError::Panic,
        },
        (DurationPick::Literal(x), OnErrorPick::Ref(c, e)) => ValidOpts {
            duration: ParsedDuration::Duration(x),
            on_error: OnError::Callable(take_run(&mut toks, c, e)),
        },
        (DurationPick::Literal(x), OnErrorPick::Panic) => ValidOpts {
            duration: ParsedDuration::Duration(x),
            on_error: OnError::Panic,
        },
    }
}

/// Parses and validates the configuration tokens of the attribute.
pub fn parse_attr(attr: Vec<TokenTree>) -> (r: Result<ValidOpts, Error>)
    ensures
        match attr_spec(attr@) {
            Ok(o) => r matches Ok(v) && v@ == o,
            Err(e) => r == Err::<ValidOpts, Error>(e),
        },
{
    let mut opts = Opts { duration: None, on_error: None };
    let mut i: usize = 0;
    while i < attr.len()
        invariant
            i <= attr.len(),
            scan_attr(attr@, 0, no_slots()) == scan_attr(attr@, i as int, opts@),
            slots_before(opts@, i as int),
        decreases attr.len() - i,
    {
        proof {
            lemma_step_advances(attr@, i as int, opts@);
            lemma_step_keeps_order(attr@, i as int, opts@);
        }
        match take_next(&attr, i, &mut opts) {
            Ok(j) => i = j,
            Err(e) => return Err(e),
        }
    }
    let duration = match opts.duration {
        Some(d) => d,
        None => return Err(
            Error::missing_span(ErrorKind::MissingAttribute(Attribute::Duration)),
        ),
    };
    let on_error = match opts.on_error {
        Some(o) => o,
        None => return Err(Error::missing_span(ErrorKind::MissingAttribute(Attribute::OnError))),
    };
    Ok(build_opts(attr, duration, on_error))
}

/// `core::time::Duration::new`, as tokens.
pub open spec fn duration_new_path() -> Seq<TokenView> {
    seq![call_site_ident("core"@)] + path_sep() + seq![call_site_ident("time"@)] + path_sep()
        + seq![call_site_ident("Duration"@)] + path_sep() + seq![call_site_ident("new"@)]
}

/// `core::time::Duration::new(secs, nanos)`, as tokens.
pub open spec fn duration_new_call(secs: nat, nanos: nat) -> Seq<TokenView> {
    duration_new_path().push(
        call_site_group(
            Delimiter::Parenthesis,
            seq![
                call_site_literal(decimal_digits(secs)),
                call_site_punct(',', Spacing::Alone),
                call_site_literal(decimal_digits(nanos) + "u32"@),
            ],
        ),
    )
}

/// The tokens of an expression for a duration.
pub open spec fn duration_tokens(d: DurationView) -> Seq<TokenView> {
    match d {
        DurationView::Literal(t) => duration_new_call(
            t / (NANOS_PER_SEC as nat),
            t % (NANOS_PER_SEC as nat),
        ),
        DurationView::Reference(s) => stream_view(s),
    }
}

/// `("timeout")`, as tokens.
pub open spec fn timeout_argument() -> TokenView {
    call_site_group(
        Delimiter::Parenthesis,
        seq![call_site_literal(string_literal_text("timeout"@))],
    )
}

/// The tokens of what the generated code does once time has run out.
pub open spec fn on_error_tokens(o: OnErrorView) -> Seq<TokenView> {
    match o {
        OnErrorView::Panic => seq![
            call_site_ident("panic"@),
            call_site_punct('!', Spacing::Alone),
            timeout_argument(),
        ],
        OnErrorView::Callable(s) => stream_view(s).push(timeout_argument()),
    }
}

/// Builds `("timeout")`.
fn timeout_argument_token() -> (r: TokenTree)
    ensures
        token_view(r) == timeout_argument(),
{
    let mut args: Vec<TokenTree> = Vec::new();
    push_token(&mut args, TokenTree::Literal(Literal::string("timeout")));
    assert(stream_view(args@) =~= seq![call_site_literal(string_literal_text("timeout"@))]);
    group_token(Delimiter::Parenthesis, args)
}

impl ParsedDuration {
    /// An expression for the duration: a `Duration::new` call for a
    /// literal, the tokens themselves for a reference.
    pub fn into_token_stream(self) -> (r: Vec<TokenTree>)
        ensures
            stream_view(r@) == duration_tokens(self@),
    {
        match self {
            ParsedDuration::Duration(d) => {
                let secs = d.as_secs();
                let nanos = d.subsec_nanos();
                let mut args: Vec<TokenTree> = Vec::new();
                push_token(&mut args, TokenTree::Literal(Literal::u64_unsuffixed(secs)));
                push_token(&mut args, punct_token(',', Spacing::Alone));
                push_token(&mut args, TokenTree::Literal(Literal::u32_suffixed(nanos)));
                let ghost args_view = stream_view(args@);
                let mut ts: Vec<TokenTree> = Vec::new();
                push_token(&mut ts, ident_token("core"));
                push_path_sep(&mut ts);
                push_token(&mut ts, ident_token("time"));
                push_path_sep(&mut ts);
                push_token(&mut ts, ident_token("Duration"));
                push_path_sep(&mut ts);
                push_token(&mut ts, ident_token("new"));
                assert(stream_view(ts@) =~= duration_new_path());
                push_token(&mut ts, group_token(Delimiter::Parenthesis, args));
                assert(args_view =~= seq![
                    call_site_literal(decimal_digits(secs as nat)),
                    call_site_punct(',', Spacing::Alone),
                    call_site_literal(decimal_digits(nanos as nat) + "u32"@),
                ]);
                assert(stream_view(ts@) =~= duration_tokens(DurationView::Literal(d@)));
                ts
            },
            ParsedDuration::Ref(r) => r,
        }
    }
}

impl OnError {
    /// What the generated code does once time has run out: `panic!("timeout")`,
    /// or the callable applied to `"timeout"`.
    pub fn into_token_stream(self) -> (r: Vec<TokenTree>)
        ensures
            stream_view(r@) == on_error_tokens(self@),
    {
        match self {
            OnError::Panic => {
                let mut ts: Vec<TokenTree> = Vec::new();
                push_token(&mut ts, ident_token("panic"));
                push_token(&mut ts, punct_token('!', Spacing::Alone));
                push_token(&mut ts, timeout_argument_token());
                assert(stream_view(ts@) =~= on_error_tokens(OnErrorView::Panic));
                ts
            },
            OnError::Callable(callable) => {
                let mut ts = callable;
                push_token(&mut ts, timeout_argument_token());
                ts
            },
        }
    }
}

/// The length, in nanoseconds, that a `core::time::Duration::new(secs,
/// nanos)` call written as tokens stands for, where the tokens are such a
/// call with integer literals.
pub open spec fn read_duration_new(s: Seq<TokenView>) -> Option<int> {
    if s.len() == 11 && s.subrange(0, 10) == duration_new_path() {
        match s[10] {
            TokenView::Group(Delimiter::Parenthesis, args, _) => if args.len() == 3 {
                match (args[0], args[1], args[2]) {
                    (
                        TokenView::Literal(secs, _),
                        TokenView::Punct(',', _, _),
                        TokenView::Literal(nanos, _),
                    ) => read_duration_args(secs, nanos),
                    _ => None,
                }
            } else {
                None
            },
            _ => None,
        }
    } else {
        None
    }
}

/// The arguments `secs` and `nanos` of a `Duration::new` call, the second
/// with the suffix `u32`, read as a length in nanoseconds.
pub open spec fn read_duration_args(secs: Seq<char>, nanos: Seq<char>) -> Option<int> {
    let n = nanos.len() as int;
    if n > 3 && nanos.subrange(n - 3, n) == "u32"@ && all_digits(secs) && all_digits(
        nanos.subrange(0, n - 3),
    ) {
        Some(decimal_value(secs) * NANOS_PER_SEC + decimal_value(nanos.subrange(0, n - 3)))
    } else {
        None
    }
}

/// The decimal digits of a number read back as that number.
pub proof fn lemma_decimal_round_trip(n: nat)
    ensures
        decimal_digits(n).len() > 0,
        all_digits(decimal_digits(n)),
        decimal_value(decimal_digits(n)) == n,
    decreases n,
{
    let c = digit_char(n % 10);
    assert(c as int == n % 10 + 48);
    let d = decimal_digits(n);
    assert(d.last() == c);
    if n < 10 {
        assert(d.drop_last() =~= Seq::<char>::empty());
        assert(decimal_value(d.drop_last()) == 0);
    }
    if n >= 10 {
        lemma_decimal_round_trip(n / 10);
        assert(d.drop_last() =~= decimal_digits(n / 10));
        assert(decimal_value(d) == decimal_value(decimal_digits(n / 10)) * 10 + n % 10);
        assert(n == (n / 10) * 10 + n % 10);
        assert forall|i: int| 0 <= i < d.len() implies is_digit(#[trigger] d[i]) by {
            if i < d.len() - 1 {
                assert(d[i] == decimal_digits(n / 10)[i]);
            }
        }
    }
}

/// Reading back the `Duration::new` call that a literal duration becomes
/// gives the very duration it was made from.
pub proof fn lemma_duration_literal_round_trip(t: nat)
    ensures
        read_duration_new(duration_tokens(DurationView::Literal(t))) == Some(t as int),
{
    let q = t / (NANOS_PER_SEC as nat);
    let r = t % (NANOS_PER_SEC as nat);
    lemma_decimal_round_trip(q);
    lemma_decimal_round_trip(r);
    reveal_strlit("u32");
    let nanos = decimal_digits(r) + "u32"@;
    assert(nanos.subrange(nanos.len() - 3, nanos.len() as int) =~= "u32"@);
    assert(nanos.subrange(0, nanos.len() - 3) =~= decimal_digits(r));
    let s = duration_tokens(DurationView::Literal(t));
    assert(s.subrange(0, 10) =~= duration_new_path());
}

} // verus!
