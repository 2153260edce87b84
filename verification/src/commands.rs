//! The directive grammar of the search box: tokens that begin with `/` steer
//! the application, the other tokens form the query.

use vstd::arithmetic::div_mod::{lemma_fundamental_div_mod, lemma_fundamental_div_mod_converse};
use vstd::prelude::*;
use vstd::string::*;
use crate::numbers::{decimal_digits, decimal_value, i64_to_chars, int_text, read_digits};
use crate::scope::SearchScope;
use crate::text::{
    append_chars, char_is_ascii_alpha, char_is_ascii_digit, chars_are, chars_start_with,
    is_ascii_alpha, is_ascii_digit, is_space, join, join_chars, lemma_single_token, lower,
    lower_chars, slice_chars, split_whitespace, split_ws, starts_with, string_of, to_chars,
    to_upper_char, trim, trim_chars, upper_char, views,
};

verus! {

/// What a line of input asks for.
#[derive(Debug)]
pub struct ParsedDirective {
    pub scope_override: Option<SearchScope>,
    pub clean_query: String,
    pub test_progress: bool,
    pub exit_app: bool,
    pub elevate_app: bool,
    pub latest_only: bool,
    pub latest_window_secs: Option<i64>,
    pub latest_refused: bool,
    pub reindex_current_scope: bool,
    pub toggle_tracking: bool,
    pub toggle_fullscreen: bool,
    pub toggle_fullheight: bool,
    pub switch_renderer_soft: bool,
}

/// What has been read of a line after some of its tokens: the directives
/// seen and the tokens kept for the query.
pub ghost struct DirectiveState {
    pub scope_override: Option<SearchScope>,
    pub clean_tokens: Seq<Seq<char>>,
    pub test_progress: bool,
    pub exit_app: bool,
    pub elevate_app: bool,
    pub latest_only: bool,
    pub latest_window_secs: Option<i64>,
    pub latest_refused: bool,
    pub reindex_current_scope: bool,
    pub toggle_tracking: bool,
    pub toggle_fullscreen: bool,
    pub toggle_fullheight: bool,
    pub switch_renderer_soft: bool,
}

impl ParsedDirective {
    /// Whether this value is what the state `st` amounts to at the end of a
    /// line: the same directives, and the kept tokens joined by single
    /// spaces as the query.
    pub open spec fn is_result_of(&self, st: DirectiveState) -> bool {
        &&& self.scope_override == st.scope_override
        &&& self.clean_query@ == join(st.clean_tokens, seq![' '])
        &&& self.test_progress == st.test_progress
        &&& self.exit_app == st.exit_app
        &&& self.elevate_app == st.elevate_app
        &&& self.latest_only == st.latest_only
        &&& self.latest_window_secs == st.latest_window_secs
        &&& self.latest_refused == st.latest_refused
        &&& self.reindex_current_scope == st.reindex_current_scope
        &&& self.toggle_tracking == st.toggle_tracking
        &&& self.toggle_fullscreen == st.toggle_fullscreen
        &&& self.toggle_fullheight == st.toggle_fullheight
        &&& self.switch_renderer_soft == st.switch_renderer_soft
    }
}

/// The drive that a token `/x:` names.
pub open spec fn drive_directive(token: Seq<char>) -> Option<char> {
    if token.len() == 3 && token[0] == '/' && token[2] == ':' && is_ascii_alpha(token[1]) {
        Some(upper_char(token[1]))
    } else {
        None
    }
}

/// The number of digits that a text begins with.
pub open spec fn digit_prefix_len(s: Seq<char>) -> nat
    decreases s.len(),
{
    if s.len() > 0 && is_ascii_digit(s[0]) {
        1 + digit_prefix_len(s.drop_first())
    } else {
        0
    }
}

/// The number of seconds in a unit of time, by any of the unit's names.
pub open spec fn unit_seconds(unit: Seq<char>) -> Option<int> {
    if unit == "s"@ || unit == "sec"@ || unit == "secs"@ || unit == "second"@ || unit
        == "seconds"@ {
        Some(1)
    } else if unit == "m"@ || unit == "min"@ || unit == "mins"@ || unit == "minute"@ || unit
        == "minutes"@ {
        Some(60)
    } else if unit == "h"@ || unit == "hr"@ || unit == "hrs"@ || unit == "hour"@ || unit
        == "hours"@ {
        Some(3600)
    } else if unit == "d"@ || unit == "day"@ || unit == "days"@ {
        Some(86400)
    } else {
        None
    }
}

/// The window, in seconds, that a token such as `30sec` or `2h` names: a
/// positive number that fits an `i64`, followed by a unit. A product that
/// does not fit is the largest `i64`.
pub open spec fn latest_window(token: Seq<char>) -> Option<i64> {
    let t = lower(trim(token));
    let n = digit_prefix_len(t) as int;
    if n == 0 || n == t.len() {
        None
    } else {
        let value = decimal_value(t.take(n));
        if value == 0 || value > i64::MAX {
            None
        } else {
            match unit_seconds(t.skip(n)) {
                Some(f) => Some(
                    if value * f > i64::MAX {
                        i64::MAX
                    } else {
                        (value * f) as i64
                    },
                ),
                None => None,
            }
        }
    }
}

/// Whether a token names a window of no time or of less: a number that is
/// zero, or one behind a minus sign, followed by a unit.
pub open spec fn empty_window(token: Seq<char>) -> bool {
    let t = lower(trim(token));
    let negative = t.len() > 0 && t[0] == '-';
    let body = if negative {
        t.skip(1)
    } else {
        t
    };
    let n = digit_prefix_len(body) as int;
    &&& 0 < n < body.len()
    &&& unit_seconds(body.skip(n)) is Some
    &&& (negative || decimal_value(body.take(n)) == 0)
}

pub open spec fn initial_state() -> DirectiveState {
    DirectiveState {
        scope_override: None,
        clean_tokens: Seq::empty(),
        test_progress: false,
        exit_app: false,
        elevate_app: false,
        latest_only: false,
        latest_window_secs: None,
        latest_refused: false,
        reindex_current_scope: false,
        toggle_tracking: false,
        toggle_fullscreen: false,
        toggle_fullheight: false,
        switch_renderer_soft: false,
    }
}

/// Whether a window token is looked for: `/latest` or `/last` has been
/// read and no window yet.
pub open spec fn window_awaited(st: DirectiveState) -> bool {
    st.latest_only && st.latest_window_secs is None
}

/// What a token of a line is.
#[derive(Debug, Clone, Copy, PartialEq, Eq)]
pub enum TokenKind {
    /// A window of no time or of less where a window is looked for.
    RefusedWindow,
    Scope(SearchScope),
    TestProgress,
    Exit,
    Elevate,
    Latest,
    Reindex,
    Track,
    Fullscreen,
    FullHeight,
    SoftRenderer,
    /// A window where a window is looked for.
    Window(i64),
    /// A token that begins with `/` and is no directive.
    Dropped,
    /// A token of the query.
    Query,
}

/// What the lower-cased token `n` is, `awaited` saying whether a window is
/// looked for.
pub open spec fn token_kind(n: Seq<char>, awaited: bool) -> TokenKind {
    if awaited && empty_window(n) {
        TokenKind::RefusedWindow
    } else if n == "/entire"@ {
        TokenKind::Scope(SearchScope::EntireCurrentDrive)
    } else if n == "/all"@ {
        TokenKind::Scope(SearchScope::AllLocalDrives)
    } else if drive_directive(n) is Some {
        TokenKind::Scope(SearchScope::Drive(drive_directive(n)->0))
    } else if n == "/testprogress"@ {
        TokenKind::TestProgress
    } else if n == "/exit"@ {
        TokenKind::Exit
    } else if n == "/up"@ {
        TokenKind::Elevate
    } else if n == "/latest"@ || n == "/last"@ {
        TokenKind::Latest
    } else if n == "/reindex"@ {
        TokenKind::Reindex
    } else if n == "/track"@ {
        TokenKind::Track
    } else if n == "/fullscreen"@ {
        TokenKind::Fullscreen
    } else if n == "/fullheight"@ {
        TokenKind::FullHeight
    } else if n == "/soft"@ {
        TokenKind::SoftRenderer
    } else if awaited && latest_window(n) is Some {
        TokenKind::Window(latest_window(n)->0)
    } else if n.len() > 0 && n[0] == '/' {
        TokenKind::Dropped
    } else {
        TokenKind::Query
    }
}

/// What one more token does to the state. Directives are recognised
/// whatever their case. A window token counts only behind `/latest` or
/// `/last` and only once. A window of no time or of less in that place is
/// refused: it is dropped and takes the `/latest` before it back, so that
/// the line changes nothing about recent items. Any other token that
/// begins with `/` is dropped.
pub open spec fn directive_step(st: DirectiveState, token: Seq<char>) -> DirectiveState {
    match token_kind(lower(token), window_awaited(st)) {
        TokenKind::RefusedWindow => DirectiveState {
            latest_only: false,
            latest_refused: true,
            ..st
        },
        TokenKind::Scope(scope) => DirectiveState { scope_override: Some(scope), ..st },
        TokenKind::TestProgress => DirectiveState { test_progress: true, ..st },
        TokenKind::Exit => DirectiveState { exit_app: true, ..st },
        TokenKind::Elevate => DirectiveState { elevate_app: true, ..st },
        TokenKind::Latest => DirectiveState { latest_only: true, ..st },
        TokenKind::Reindex => DirectiveState { reindex_current_scope: true, ..st },
        TokenKind::Track => DirectiveState { toggle_tracking: true, ..st },
        TokenKind::Fullscreen => DirectiveState { toggle_fullscreen: true, ..st },
        TokenKind::FullHeight => DirectiveState { toggle_fullheight: true, ..st },
        TokenKind::SoftRenderer => DirectiveState { switch_renderer_soft: true, ..st },
        TokenKind::Window(secs) => DirectiveState { latest_window_secs: Some(secs), ..st },
        TokenKind::Dropped => st,
        TokenKind::Query => DirectiveState { clean_tokens: st.clean_tokens.push(token), ..st },
    }
}

/// The state after the first `n` tokens.
pub open spec fn directive_fold(tokens: Seq<Seq<char>>, n: nat) -> DirectiveState
    decreases n,
{
    if n == 0 || n > tokens.len() {
        initial_state()
    } else {
        directive_step(directive_fold(tokens, (n - 1) as nat), tokens[n - 1])
    }
}

/// The state at the end of a line.
pub open spec fn parsed_line(input: Seq<char>) -> DirectiveState {
    directive_fold(split_ws(input), split_ws(input).len())
}

pub fn parse_drive_directive_chars(token: &Vec<char>) -> (r: Option<char>)
    ensures
        r == drive_directive(token@),
        r is Some ==> 'A' <= r->0 && r->0 <= 'Z',
{
    if token.len() == 3 && token[0] == '/' && token[2] == ':' && char_is_ascii_alpha(token[1]) {
        Some(to_upper_char(token[1]))
    } else {
        None
    }
}

pub fn parse_drive_directive(token: &str) -> (r: Option<char>)
    ensures
        r == drive_directive(token@),
        r is Some ==> 'A' <= r->0 && r->0 <= 'Z',
{
    let v = to_chars(token);
    parse_drive_directive_chars(&v)
}

/// Characterises `digit_prefix_len` by what it counts.
proof fn lemma_digit_prefix_is(s: Seq<char>, n: int)
    requires
        0 <= n <= s.len(),
        forall|k: int| 0 <= k < n ==> is_ascii_digit(#[trigger] s[k]),
        n < s.len() ==> !is_ascii_digit(s[n]),
    ensures
        digit_prefix_len(s) == n,
    decreases s.len(),
{
    if n > 0 {
        let t = s.drop_first();
        assert(is_ascii_digit(s[0]));
        assert forall|k: int| 0 <= k < n - 1 implies is_ascii_digit(#[trigger] t[k]) by {
            assert(t[k] == s[k + 1]);
        }
        lemma_digit_prefix_is(t, n - 1);
    }
}

pub fn unit_factor(unit: &Vec<char>) -> (r: Option<i64>)
    ensures
        match r {
            Some(f) => unit_seconds(unit@) == Some(f as int),
            None => unit_seconds(unit@) is None,
        },
{
    if chars_are(unit, "s") || chars_are(unit, "sec") || chars_are(unit, "secs") || chars_are(
        unit,
        "second",
    ) || chars_are(unit, "seconds") {
        Some(1)
    } else if chars_are(unit, "m") || chars_are(unit, "min") || chars_are(unit, "mins")
        || chars_are(unit, "minute") || chars_are(unit, "minutes") {
        Some(60)
    } else if chars_are(unit, "h") || chars_are(unit, "hr") || chars_are(unit, "hrs") || chars_are(
        unit,
        "hour",
    ) || chars_are(unit, "hours") {
        Some(3600)
    } else if chars_are(unit, "d") || chars_are(unit, "day") || chars_are(unit, "days") {
        Some(86400)
    } else {
        None
    }
}

pub fn parse_latest_window_chars(token: &Vec<char>) -> (r: Option<i64>)
    ensures
        r == latest_window(token@),
        r is Some ==> r->0 > 0,
{
    let trimmed = trim_chars(token);
    let t = lower_chars(&trimmed);
    let mut n: usize = 0;
    while n < t.len() && char_is_ascii_digit(t[n])
        invariant
            n <= t.len(),
            forall|k: int| 0 <= k < n ==> is_ascii_digit(#[trigger] t[k]),
        decreases t.len() - n,
    {
        n += 1;
    }
    proof {
        lemma_digit_prefix_is(t@, n as int);
    }
    if n == 0 || n == t.len() {
        return None;
    }
    assert(t@.subrange(0, n as int) =~= t@.take(n as int));
    assert forall|k: int| 0 <= k < t@.take(n as int).len() implies is_ascii_digit(
        #[trigger] t@.take(n as int)[k],
    ) by {
        assert(t@.take(n as int)[k] == t[k]);
    }
    let value = match read_digits(&t, 0, n, 0x7fff_ffff_ffff_ffffu64) {
        Some(v) => v,
        None => {
            return None;
        },
    };
    if value == 0 {
        return None;
    }
    let unit = slice_chars(&t, n, t.len());
    assert(unit@ =~= t@.skip(n as int));
    match unit_factor(&unit) {
        Some(f) => {
            assert(f == 1 || f == 60 || f == 3600 || f == 86400);
            let limit: u64 = 0x7fff_ffff_ffff_ffffu64 / (f as u64);
            if value > limit {
                assert(value * f > i64::MAX) by (nonlinear_arith)
                    requires
                        value > limit,
                        limit == 0x7fff_ffff_ffff_ffffu64 / (f as u64),
                        f == 1 || f == 60 || f == 3600 || f == 86400,
                ;
                Some(i64::MAX)
            } else {
                assert(0 < value * f <= i64::MAX) by (nonlinear_arith)
                    requires
                        0 < value <= limit,
                        limit == 0x7fff_ffff_ffff_ffffu64 / (f as u64),
                        f == 1 || f == 60 || f == 3600 || f == 86400,
                ;
                Some((value as i64) * f)
            }
        },
        None => None,
    }
}

/// Whether a token names a window of no time or of less.
pub fn is_empty_window_chars(token: &Vec<char>) -> (r: bool)
    ensures
        r == empty_window(token@),
{
    let trimmed = trim_chars(token);
    let t = lower_chars(&trimmed);
    let negative = t.len() > 0 && t[0] == '-';
    let body = if negative {
        slice_chars(&t, 1, t.len())
    } else {
        slice_chars(&t, 0, t.len())
    };
    assert(body@ =~= if negative {
        t@.skip(1)
    } else {
        t@
    });
    let mut n: usize = 0;
    while n < body.len() && char_is_ascii_digit(body[n])
        invariant
            n <= body.len(),
            forall|k: int| 0 <= k < n ==> is_ascii_digit(#[trigger] body[k]),
        decreases body.len() - n,
    {
        n += 1;
    }
    proof {
        lemma_digit_prefix_is(body@, n as int);
    }
    if n == 0 || n == body.len() {
        return false;
    }
    let unit = slice_chars(&body, n, body.len());
    assert(unit@ =~= body@.skip(n as int));
    if unit_factor(&unit).is_none() {
        return false;
    }
    if negative {
        return true;
    }
    assert(body@.subrange(0, n as int) =~= body@.take(n as int));
    assert forall|k: int| 0 <= k < body@.take(n as int).len() implies is_ascii_digit(
        #[trigger] body@.take(n as int)[k],
    ) by {
        assert(body@.take(n as int)[k] == body[k]);
    }
    read_digits(&body, 0, n, 0).is_some()
}

/// The window that a token names, if it names one. A window is never zero
/// or negative.
pub fn parse_latest_window_token(token: &str) -> (r: Option<i64>)
    ensures
        r == latest_window(token@),
        r is Some ==> r->0 > 0,
{
    let v = to_chars(token);
    parse_latest_window_chars(&v)
}

/// Says what a lower-cased token is.
pub fn classify_token(n: &Vec<char>, awaited: bool) -> (r: TokenKind)
    ensures
        r == token_kind(n@, awaited),
        r matches TokenKind::Window(secs) ==> secs > 0,
        r matches TokenKind::Scope(scope) ==> scope.is_valid(),
{
    let drive = parse_drive_directive_chars(n);
    if awaited && is_empty_window_chars(n) {
        TokenKind::RefusedWindow
    } else if chars_are(n, "/entire") {
        TokenKind::Scope(SearchScope::EntireCurrentDrive)
    } else if chars_are(n, "/all") {
        TokenKind::Scope(SearchScope::AllLocalDrives)
    } else if drive.is_some() {
        TokenKind::Scope(SearchScope::Drive(drive.unwrap()))
    } else if chars_are(n, "/testprogress") {
        TokenKind::TestProgress
    } else if chars_are(n, "/exit") {
        TokenKind::Exit
    } else if chars_are(n, "/up") {
        TokenKind::Elevate
    } else if chars_are(n, "/latest") || chars_are(n, "/last") {
        TokenKind::Latest
    } else if chars_are(n, "/reindex") {
        TokenKind::Reindex
    } else if chars_are(n, "/track") {
        TokenKind::Track
    } else if chars_are(n, "/fullscreen") {
        TokenKind::Fullscreen
    } else if chars_are(n, "/fullheight") {
        TokenKind::FullHeight
    } else if chars_are(n, "/soft") {
        TokenKind::SoftRenderer
    } else {
        let window = if awaited {
            parse_latest_window_chars(n)
        } else {
            None
        };
        match window {
            Some(secs) => TokenKind::Window(secs),
            None => if n.len() > 0 && n[0] == '/' {
                TokenKind::Dropped
            } else {
                TokenKind::Query
            },
        }
    }
}

/// Reads a line of input: its directives and its query.
pub fn parse_scope_directive(input: &str) -> (r: ParsedDirective)
    ensures
        r.is_result_of(parsed_line(input@)),
        r.latest_window_secs is Some ==> r.latest_window_secs->0 > 0,
        r.scope_override is Some ==> r.scope_override->0.is_valid(),
{
    let chars = to_chars(input);
    let tokens = split_whitespace(&chars);
    let mut scope_override: Option<SearchScope> = None;
    let mut remaining: Vec<Vec<char>> = Vec::new();
    let mut test_progress = false;
    let mut exit_app = false;
    let mut elevate_app = false;
    let mut latest_only = false;
    let mut latest_window_secs: Option<i64> = None;
    let mut latest_refused = false;
    let mut reindex_current_scope = false;
    let mut toggle_tracking = false;
    let mut toggle_fullscreen = false;
    let mut toggle_fullheight = false;
    let mut switch_renderer_soft = false;
    let mut i: usize = 0;
    assert(views(remaining@) =~= Seq::<Seq<char>>::empty());
    while i < tokens.len()
        invariant
            i <= tokens.len(),
            views(tokens@) == split_ws(input@),
            directive_fold(split_ws(input@), i as nat) == (DirectiveState {
                scope_override,
                clean_tokens: views(remaining@),
                test_progress,
                exit_app,
                elevate_app,
                latest_only,
                latest_window_secs,
                latest_refused,
                reindex_current_scope,
                toggle_tracking,
                toggle_fullscreen,
                toggle_fullheight,
                switch_renderer_soft,
            }),
            latest_window_secs is Some ==> latest_window_secs->0 > 0,
            scope_override is Some ==> scope_override->0.is_valid(),
        decreases tokens.len() - i,
    {
        let token = &tokens[i];
        assert(views(tokens@)[i as int] == token@);
        let n = lower_chars(token);
        let awaited = latest_only && latest_window_secs.is_none();
        match classify_token(&n, awaited) {
            TokenKind::RefusedWindow => {
                latest_only = false;
                latest_refused = true;
            },
            TokenKind::Scope(scope) => {
                scope_override = Some(scope);
            },
            TokenKind::TestProgress => {
                test_progress = true;
            },
            TokenKind::Exit => {
                exit_app = true;
            },
            TokenKind::Elevate => {
                elevate_app = true;
            },
            TokenKind::Latest => {
                latest_only = true;
            },
            TokenKind::Reindex => {
                reindex_current_scope = true;
            },
            TokenKind::Track => {
                toggle_tracking = true;
            },
            TokenKind::Fullscreen => {
                toggle_fullscreen = true;
            },
            TokenKind::FullHeight => {
                toggle_fullheight = true;
            },
            TokenKind::SoftRenderer => {
                switch_renderer_soft = true;
            },
            TokenKind::Window(secs) => {
                latest_window_secs = Some(secs);
            },
            TokenKind::Dropped => {},
            TokenKind::Query => {
                let ghost before = views(remaining@);
                remaining.push(token.clone());
                assert(views(remaining@) =~= before.push(token@));
            },
        }
        i += 1;
    }
    let mut space: Vec<char> = Vec::new();
    space.push(' ');
    assert(space@ =~= seq![' ']);
    let joined = join_chars(&remaining, &space);
    ParsedDirective {
        scope_override,
        clean_query: string_of(&joined),
        test_progress,
        exit_app,
        elevate_app,
        latest_only,
        latest_window_secs,
        latest_refused,
        reindex_current_scope,
        toggle_tracking,
        toggle_fullscreen,
        toggle_fullheight,
        switch_renderer_soft,
    }
}

/// A window of no time or of less behind `/latest` or `/last` is refused:
/// the token is dropped and the wish for recent items is taken back, so
/// that the two tokens together ask for nothing.
pub proof fn lemma_refused_window(st: DirectiveState, token: Seq<char>)
    requires
        window_awaited(st),
        empty_window(lower(token)),
    ensures
        directive_step(st, token) == (DirectiveState {
            latest_only: false,
            latest_refused: true,
            ..st
        }),
        directive_step(st, token).latest_window_secs is None,
        directive_step(st, token).clean_tokens == st.clean_tokens,
{
}

/// A line of `/latest` or `/last` and a window of no time or of less asks
/// for nothing and holds no query.
pub proof fn lemma_refused_window_line(tokens: Seq<Seq<char>>)
    requires
        tokens.len() == 2,
        lower(tokens[0]) == "/latest"@ || lower(tokens[0]) == "/last"@,
        empty_window(lower(tokens[1])),
    ensures
        directive_fold(tokens, 2) == (DirectiveState { latest_refused: true, ..initial_state() }),
{
    reveal_strlit("/entire");
    reveal_strlit("/all");
    reveal_strlit("/testprogress");
    reveal_strlit("/exit");
    reveal_strlit("/up");
    reveal_strlit("/latest");
    reveal_strlit("/last");
    let first = directive_fold(tokens, 1);
    let n = lower(tokens[0]);
    assert(directive_fold(tokens, 0) == initial_state());
    assert(first == directive_step(initial_state(), tokens[0]));
    assert(n.len() == 7 || n.len() == 5);
    assert(n[1] == 'l');
    assert("/entire"@[1] == 'e');
    assert("/exit"@[1] == 'e');
    assert(token_kind(n, false) == TokenKind::Latest);
    assert(first == (DirectiveState { latest_only: true, ..initial_state() }));
    lemma_refused_window(first, tokens[1]);
}

/// A token without white space that does not begin with `/` is a line of
/// its own: it asks for nothing and is the whole query.
pub proof fn lemma_parse_plain(s: Seq<char>)
    requires
        s.len() > 0,
        s[0] != '/',
        forall|i: int| 0 <= i < s.len() ==> !is_space(#[trigger] s[i]),
    ensures
        parsed_line(s) == (DirectiveState { clean_tokens: seq![s], ..initial_state() }),
        join(parsed_line(s).clean_tokens, seq![' ']) == s,
{
    lemma_single_token(s);
    reveal_strlit("/entire");
    reveal_strlit("/all");
    reveal_strlit("/testprogress");
    reveal_strlit("/exit");
    reveal_strlit("/up");
    reveal_strlit("/latest");
    reveal_strlit("/last");
    reveal_strlit("/reindex");
    reveal_strlit("/track");
    reveal_strlit("/fullscreen");
    reveal_strlit("/fullheight");
    reveal_strlit("/soft");
    let n = lower(s);
    assert(n[0] != '/');
    let toks = split_ws(s);
    assert(directive_fold(toks, 0) == initial_state());
    assert(directive_fold(toks, 1) == directive_step(initial_state(), s));
    assert(Seq::<Seq<char>>::empty().push(s) =~= seq![s]);
}

/// The label of a valid scope, read as a line of input, is a query and
/// nothing else: reading it gives the label back and asks for nothing.
pub proof fn lemma_parse_scope_label(scope: SearchScope)
    requires
        scope.is_valid(),
    ensures
        parsed_line(scope.label_text()) == (DirectiveState {
            clean_tokens: seq![scope.label_text()],
            ..initial_state()
        }),
        join(parsed_line(scope.label_text()).clean_tokens, seq![' ']) == scope.label_text(),
{
    reveal_strlit("current-folder");
    reveal_strlit("entire-current-drive");
    reveal_strlit("all-local-drives");
    let l = scope.label_text();
    assert forall|i: int| 0 <= i < l.len() implies !is_space(#[trigger] l[i]) by {}
    lemma_parse_plain(l);
}

/// The text of a window: in days, hours or minutes where the seconds
/// divide evenly, the largest unit first, and in seconds otherwise.
pub open spec fn latest_window_text(secs: i64) -> Seq<char> {
    if secs % 86400 == 0 {
        int_text(secs / 86400).push('d')
    } else if secs % 3600 == 0 {
        int_text(secs / 3600).push('h')
    } else if secs % 60 == 0 {
        int_text(secs / 60).push('m')
    } else {
        int_text(secs as int).push('s')
    }
}

/// Whether `d` divides `n` evenly, and the quotient where it does.
fn exact_quotient(n: i64, d: i64) -> (r: Option<i64>)
    requires
        d == 60 || d == 3600 || d == 86400,
    ensures
        match r {
            Some(q) => n % d == 0 && q == n / d,
            None => n % d != 0,
        },
{
    if n >= 0 {
        if n % d == 0 {
            Some(n / d)
        } else {
            None
        }
    } else if n == i64::MIN {
        assert(n % d != 0) by {
            assert((-9223372036854775808int) % 60 != 0);
            assert((-9223372036854775808int) % 3600 != 0);
            assert((-9223372036854775808int) % 86400 != 0);
        }
        None
    } else {
        let m: i64 = -n;
        if m % d == 0 {
            let q = m / d;
            proof {
                lemma_fundamental_div_mod(m as int, d as int);
                assert(n == (-q) * d + 0) by (nonlinear_arith)
                    requires
                        m == d * q + 0,
                        m == -n,
                ;
                lemma_fundamental_div_mod_converse(n as int, d as int, -q as int, 0);
            }
            Some(-q)
        } else {
            proof {
                if n % d == 0 {
                    let k = (n as int) / (d as int);
                    lemma_fundamental_div_mod(n as int, d as int);
                    assert(m == (-k) * d + 0) by (nonlinear_arith)
                        requires
                            n == d * k + 0,
                            m == -n,
                    ;
                    lemma_fundamental_div_mod_converse(m as int, d as int, -k, 0);
                }
            }
            None
        }
    }
}

pub fn format_latest_window(secs: i64) -> (r: String)
    ensures
        r@ == latest_window_text(secs),
{
    let (value, unit) = match exact_quotient(secs, 86400) {
        Some(q) => (q, 'd'),
        None => match exact_quotient(secs, 3600) {
            Some(q) => (q, 'h'),
            None => match exact_quotient(secs, 60) {
                Some(q) => (q, 'm'),
                None => (secs, 's'),
            },
        },
    };
    let mut v = i64_to_chars(value);
    v.push(unit);
    string_of(&v)
}

/// One entry of the command menu.
#[derive(Debug, Clone, Copy)]
pub struct CommandMenuItem {
    pub command: &'static str,
    pub description: &'static str,
}

/// The commands of the menu with their descriptions, in the order shown.
pub open spec fn menu_table() -> Seq<(Seq<char>, Seq<char>)> {
    seq![
        ("/entire"@, "Search entire current drive"@),
        ("/all"@, "Search all local drives"@),
        ("/x:"@, "Search specific drive (example /d:)"@),
        ("/testProgress"@, "Visual progress bar test"@),
        ("/up"@, "Relaunch app elevated"@),
        ("/track"@, "Toggle live event tracking"@),
        ("/latest"@, "Recent changes (/latest 30sec)"@),
        ("/last"@, "Alias for /latest"@),
        ("/reindex"@, "Reindex current scope now"@),
        ("/exit"@, "Exit app immediately"@),
    ]
}

/// Whether the menu shows a command for what has been typed. The commands
/// for recent changes are shown only while tracking is on. A lone `/` shows
/// every command; otherwise a command is shown where it begins with what
/// was typed, whatever the case, and `/x:` also for any drive directive.
pub open spec fn menu_shows(command: Seq<char>, prefix: Seq<char>, tracking: bool) -> bool {
    &&& tracking || !(command == "/latest"@ || command == "/last"@)
    &&& prefix == "/"@ || starts_with(lower(command), prefix) || (drive_directive(prefix) is Some
        && command == "/x:"@)
}

/// The entries among the first `n` of the table that the menu shows.
pub open spec fn menu_filter(
    table: Seq<(Seq<char>, Seq<char>)>,
    prefix: Seq<char>,
    tracking: bool,
    n: nat,
) -> Seq<(Seq<char>, Seq<char>)>
    decreases n,
{
    if n == 0 || n > table.len() {
        Seq::empty()
    } else {
        let before = menu_filter(table, prefix, tracking, (n - 1) as nat);
        if menu_shows(table[n - 1].0, prefix, tracking) {
            before.push(table[n - 1])
        } else {
            before
        }
    }
}

/// The menu for a line of input: empty unless the line's first token begins
/// with `/`, and otherwise the commands shown for that token in lower case.
pub open spec fn menu_for(input: Seq<char>, tracking: bool) -> Seq<(Seq<char>, Seq<char>)> {
    let tokens = split_ws(input);
    if tokens.len() == 0 || tokens[0].len() == 0 || tokens[0][0] != '/' {
        Seq::empty()
    } else {
        menu_filter(menu_table(), lower(tokens[0]), tracking, menu_table().len())
    }
}

pub open spec fn menu_views(items: Seq<CommandMenuItem>) -> Seq<(Seq<char>, Seq<char>)> {
    Seq::new(items.len(), |i: int| (items[i].command@, items[i].description@))
}

fn menu_entries() -> (r: Vec<CommandMenuItem>)
    ensures
        menu_views(r@) == menu_table(),
{
    let mut r: Vec<CommandMenuItem> = Vec::new();
    r.push(CommandMenuItem { command: "/entire", description: "Search entire current drive" });
    r.push(CommandMenuItem { command: "/all", description: "Search all local drives" });
    r.push(
        CommandMenuItem { command: "/x:", description: "Search specific drive (example /d:)" },
    );
    r.push(CommandMenuItem { command: "/testProgress", description: "Visual progress bar test" });
    r.push(CommandMenuItem { command: "/up", description: "Relaunch app elevated" });
    r.push(CommandMenuItem { command: "/track", description: "Toggle live event tracking" });
    r.push(CommandMenuItem { command: "/latest", description: "Recent changes (/latest 30sec)" });
    r.push(CommandMenuItem { command: "/last", description: "Alias for /latest" });
    r.push(CommandMenuItem { command: "/reindex", description: "Reindex current scope now" });
    r.push(CommandMenuItem { command: "/exit", description: "Exit app immediately" });
    assert(menu_views(r@) =~= menu_table());
    r
}

/// The entries of the command menu for what has been typed.
pub fn command_menu_items(input: &str, tracking_enabled: bool) -> (r: Vec<CommandMenuItem>)
    ensures
        menu_views(r@) == menu_for(input@, tracking_enabled),
        r.len() <= 10,
{
    let chars = to_chars(input);
    let tokens = split_whitespace(&chars);
    if tokens.len() == 0 {
        let r: Vec<CommandMenuItem> = Vec::new();
        assert(menu_views(r@) =~= Seq::empty());
        return r;
    }
    assert(views(tokens@)[0] == tokens[0]@);
    if tokens[0][0] != '/' {
        let r: Vec<CommandMenuItem> = Vec::new();
        assert(menu_views(r@) =~= Seq::empty());
        return r;
    }
    let prefix = lower_chars(&tokens[0]);
    let drive_like = parse_drive_directive_chars(&prefix).is_some();
    let table = menu_entries();
    assert(table.len() == 10) by {
        assert(menu_views(table@).len() == menu_table().len());
    }
    let mut out: Vec<CommandMenuItem> = Vec::new();
    let mut i: usize = 0;
    assert(menu_views(out@) =~= Seq::empty());
    while i < table.len()
        invariant
            i <= table.len(),
            table.len() == 10,
            out.len() <= i,
            menu_views(table@) == menu_table(),
            drive_like == (drive_directive(prefix@) is Some),
            menu_views(out@) == menu_filter(menu_table(), prefix@, tracking_enabled, i as nat),
        decreases table.len() - i,
    {
        let item = table[i];
        assert(menu_views(table@)[i as int] == (item.command@, item.description@));
        let command = to_chars(item.command);
        let hidden = !tracking_enabled && (chars_are(&command, "/latest") || chars_are(
            &command,
            "/last",
        ));
        let lowered = lower_chars(&command);
        let shown = !hidden && (chars_are(&prefix, "/") || chars_start_with(&lowered, &prefix) || (
        drive_like && chars_are(&command, "/x:")));
        if shown {
            let ghost before = menu_views(out@);
            out.push(item);
            assert(menu_views(out@) =~= before.push((item.command@, item.description@)));
        }
        i += 1;
    }
    out
}

/// The tokens behind the first one.
pub open spec fn rest_tokens(tokens: Seq<Seq<char>>) -> Seq<Seq<char>> {
    if tokens.len() > 0 {
        tokens.drop_first()
    } else {
        tokens
    }
}

/// The line that results when a command of the menu is chosen: the command,
/// a space, and what followed the first token of the old line.
pub open spec fn chosen_line(raw_query: Seq<char>, command: Seq<char>) -> Seq<char> {
    command + seq![' '] + join(rest_tokens(split_ws(raw_query)), seq![' '])
}

pub fn apply_command_choice(raw_query: &str, command: &str) -> (r: String)
    ensures
        r@ == chosen_line(raw_query@, command@),
{
    let chars = to_chars(raw_query);
    let tokens = split_whitespace(&chars);
    let mut rest: Vec<Vec<char>> = Vec::new();
    let mut i: usize = 1;
    assert(views(rest@) =~= Seq::<Seq<char>>::empty());
    while i < tokens.len()
        invariant
            1 <= i,
            tokens.len() > 0 ==> i <= tokens.len(),
            tokens.len() > 0 ==> views(rest@) == views(tokens@).subrange(1, i as int),
            tokens.len() == 0 ==> views(rest@) == Seq::<Seq<char>>::empty(),
        decreases tokens.len() - i,
    {
        let ghost before = views(rest@);
        rest.push(tokens[i].clone());
        assert(views(rest@) =~= before.push(tokens[i as int]@));
        i += 1;
        assert(views(rest@) =~= views(tokens@).subrange(1, i as int));
    }
    assert(views(rest@) =~= rest_tokens(views(tokens@)));
    let mut space: Vec<char> = Vec::new();
    space.push(' ');
    assert(space@ =~= seq![' ']);
    let joined = join_chars(&rest, &space);
    let mut out = to_chars(command);
    append_chars(&mut out, &space);
    append_chars(&mut out, &joined);
    string_of(&out)
}

/// Whether a token is a directive that can be carried out as it stands. The
/// directives for recent changes count only while tracking is on.
pub open spec fn is_exact_directive(token: Seq<char>, tracking: bool) -> bool {
    let n = lower(token);
    ||| n == "/entire"@
    ||| n == "/all"@
    ||| n == "/testprogress"@
    ||| n == "/up"@
    ||| n == "/track"@
    ||| n == "/reindex"@
    ||| n == "/exit"@
    ||| n == "/fullscreen"@
    ||| n == "/fullheight"@
    ||| n == "/soft"@
    ||| drive_directive(token) is Some
    ||| (tracking && (n == "/latest"@ || n == "/last"@))
}

pub fn is_exact_directive_token(token: &str, tracking_enabled: bool) -> (r: bool)
    ensures
        r == is_exact_directive(token@, tracking_enabled),
{
    let t = to_chars(token);
    let n = lower_chars(&t);
    chars_are(&n, "/entire") || chars_are(&n, "/all") || chars_are(&n, "/testprogress")
        || chars_are(&n, "/up") || chars_are(&n, "/track") || chars_are(&n, "/reindex")
        || chars_are(&n, "/exit") || chars_are(&n, "/fullscreen") || chars_are(&n, "/fullheight")
        || chars_are(&n, "/soft") || parse_drive_directive_chars(&t).is_some() || (tracking_enabled
        && (chars_are(&n, "/latest") || chars_are(&n, "/last")))
}

/// The value of the `--scope=` argument that asks for a scope: its label.
pub fn scope_arg_value(scope: &SearchScope) -> (r: String)
    ensures
        r@ == scope.label_text(),
{
    scope.label()
}

} // verus!
