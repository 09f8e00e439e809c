//! Ways to combine rules that read single tokens: an optional token, a sequence, a choice
//! and repetitions, with the errors they report.
use vstd::prelude::*;
use crate::parser::error::{Captured, CapturedItem, ParseError, ParseResult};
use crate::parser::shared::progress;
use crate::parser::{adv, kind_at, sp_token, tok, TRes, Parser};
use crate::token::{Token, TokenKind};

verus! {

/// How one token is read: `Try` fails with a lookahead error and reads nothing (nothing
/// of the rule was read); `Expect` fails with an error of a rule already under way and
/// passes the token that was not the one expected.
#[derive(Clone, Copy, PartialEq, Eq, Structural, Debug)]
pub enum TokenRule {
    Try(TokenKind),
    Expect(TokenKind),
}

/// One step of a sequence: a token that must come, or one that may.
#[derive(Clone, Copy, PartialEq, Eq, Structural, Debug)]
pub enum Step {
    Required(TokenRule),
    Optional(TokenRule),
}

/// Reading a token by `rule` at `p`.
pub open spec fn sp_read(t: Seq<Token>, p: int, rule: TokenRule) -> TRes {
    match rule {
        TokenRule::Try(k) => sp_token(t, p, k, true),
        TokenRule::Expect(k) => sp_token(t, p, k, false),
    }
}

/// Where reading by `rule` at `p` leaves the parser: after the token read; after a
/// failed `Expect`, past the token that was not the one expected; after a failed `Try`,
/// where it was.
pub open spec fn read_end(t: Seq<Token>, p: int, rule: TokenRule) -> int {
    match sp_read(t, p, rule) {
        Ok((_, q)) => q,
        Err(_) => match rule {
            TokenRule::Try(_) => p,
            TokenRule::Expect(_) => adv(t, p),
        },
    }
}

/// An error that only says that a rule did not start here: a lookahead token error, a
/// choice all of whose alternatives are such errors, or a sequence that failed so before
/// reading anything.
pub open spec fn is_lookahead(e: ParseError) -> bool
    decreases e,
{
    match e {
        ParseError::TokenError { lookahead, .. } => lookahead,
        ParseError::OneOfError { variants, .. } => forall|i: int|
            0 <= i < variants@.len() ==> (#[trigger] variants@[i] matches ParseError::TokenError {
                lookahead,
                ..
            } && lookahead),
        ParseError::SeqError { steps, error, .. } => steps.items@.len() == 0 && is_lookahead(*error),
    }
}

/// What a repetition or sequence of token rules ends with.
pub enum Outcome {
    /// The tokens read, and the position after them.
    Done(Seq<Token>, int),
    /// An error of a step that nothing was read before.
    Failed(ParseError),
    /// An error after the tokens of the first list and then the second were read.
    FailedAfter(Seq<Token>, ParseError),
}

/// The record of tokens read before an error.
pub open spec fn captured_tokens(s: Seq<Token>) -> Seq<CapturedItem> {
    s.map_values(|tk: Token| CapturedItem::Token(tk))
}

/// `e` is the error of the rule `name` that failed with `inner` after reading `read`.
pub open spec fn is_seq_error(e: ParseError, name: &'static str, read: Seq<Token>, inner: ParseError) -> bool {
    match e {
        ParseError::SeqError { name: n, steps, error } => n == name && steps.items@ == captured_tokens(
            read,
        ) && *error == inner,
        _ => false,
    }
}

/// `r` and the position `pos` are the outcome `o` of the rule `name`; `split` says
/// which of the tokens read make the first list.
pub open spec fn lists_res(
    r: ParseResult<(Vec<Token>, Vec<Token>)>,
    pos: usize,
    name: &'static str,
    o: Outcome,
) -> bool {
    match o {
        Outcome::Done(s, q) => r is Ok && pos == q && r->Ok_0.0@ + r->Ok_0.1@ == s,
        Outcome::Failed(e) => r == Err::<(Vec<Token>, Vec<Token>), ParseError>(e),
        Outcome::FailedAfter(s, e) => r matches Err(err) && is_seq_error(err, name, s, e),
    }
}

/// Reading by `rule` again and again from `p`, after `acc`: stops before a lookahead
/// error (or a read that does not move), fails on another error.
pub open spec fn sp_repeat(t: Seq<Token>, p: int, rule: TokenRule, acc: Seq<Token>) -> Outcome
    decreases t.len() - p,
{
    match sp_read(t, p, rule) {
        Ok((tk, q)) => if progress(t, p, q) {
            sp_repeat(t, q, rule, acc.push(tk))
        } else {
            Outcome::Done(acc.push(tk), q)
        },
        Err(e) => if is_lookahead(e) {
            Outcome::Done(acc, p)
        } else {
            Outcome::FailedAfter(acc, e)
        },
    }
}

/// `rule` read at least once.
pub open spec fn sp_at_least_once(t: Seq<Token>, p: int, rule: TokenRule) -> Outcome {
    match sp_read(t, p, rule) {
        Ok((tk, q)) => if progress(t, p, q) {
            sp_repeat(t, q, rule, seq![tk])
        } else {
            Outcome::Done(seq![tk], q)
        },
        Err(e) => Outcome::Failed(e),
    }
}

/// Items read by `item`, separated by tokens read by `sep`, after the items `items` and
/// separators `seps`: stops where a missing separator leaves the parser (see
/// `read_end`), and goes back before a separator that no item follows (that separator is
/// kept among the separators).
pub open spec fn sp_separated(
    t: Seq<Token>,
    p: int,
    item: TokenRule,
    sep: TokenRule,
    items: Seq<Token>,
    seps: Seq<Token>,
) -> (Seq<Token>, Seq<Token>, int)
    decreases t.len() - p,
{
    match sp_read(t, p, sep) {
        Ok((s, q)) => match sp_read(t, q, item) {
            Ok((x, q2)) => if progress(t, p, q2) {
                sp_separated(t, q2, item, sep, items.push(x), seps.push(s))
            } else {
                (items.push(x), seps.push(s), q2)
            },
            Err(_) => (items, seps.push(s), p),
        },
        Err(_) => (items, seps, read_end(t, p, sep)),
    }
}

/// Pairs of tokens read by `first` and then `second`, after `firsts` and `seconds`:
/// stops where a failed `first` leaves the parser (see `read_end`), or before a
/// lookahead error of `second`; fails on another error of `second`.
pub open spec fn sp_repeat2(
    t: Seq<Token>,
    p: int,
    first: TokenRule,
    second: TokenRule,
    firsts: Seq<Token>,
    seconds: Seq<Token>,
) -> (Outcome, Seq<Token>, Seq<Token>)
    decreases t.len() - p,
{
    match sp_read(t, p, first) {
        Ok((a, q)) => match sp_read(t, q, second) {
            Ok((b, q2)) => if progress(t, p, q2) {
                sp_repeat2(t, q2, first, second, firsts.push(a), seconds.push(b))
            } else {
                (Outcome::Done(firsts.push(a) + seconds.push(b), q2), firsts.push(a), seconds.push(b))
            },
            Err(e) => if is_lookahead(e) {
                (Outcome::Done(firsts.push(a) + seconds, q), firsts.push(a), seconds)
            } else {
                (Outcome::FailedAfter(firsts.push(a) + seconds, e), firsts.push(a), seconds)
            },
        },
        Err(_) => (Outcome::Done(firsts + seconds, read_end(t, p, first)), firsts, seconds),
    }
}

/// The steps of a sequence from the `i`th, after `acc`: an optional step that fails with
/// a lookahead error reads nothing; any other failure fails the sequence.
pub open spec fn sp_all_of(t: Seq<Token>, p: int, steps: Seq<Step>, i: int, acc: Seq<Option<Token>>) -> (Option<ParseError>, Seq<Option<Token>>, int)
    decreases steps.len() - i,
{
    if 0 <= i < steps.len() {
        match steps[i] {
            Step::Required(rule) => match sp_read(t, p, rule) {
                Ok((tk, q)) => sp_all_of(t, q, steps, i + 1, acc.push(Some(tk))),
                Err(e) => (Some(e), acc, p),
            },
            Step::Optional(rule) => match sp_read(t, p, rule) {
                Ok((tk, q)) => sp_all_of(t, q, steps, i + 1, acc.push(Some(tk))),
                Err(e) => if is_lookahead(e) {
                    sp_all_of(t, p, steps, i + 1, acc.push(None))
                } else {
                    (Some(e), acc, p)
                },
            },
        }
    } else {
        (None, acc, p)
    }
}

/// The tokens among optional ones.
pub open spec fn present(s: Seq<Option<Token>>) -> Seq<Token>
    decreases s.len(),
{
    if s.len() == 0 {
        seq![]
    } else {
        match s.last() {
            Some(tk) => present(s.drop_last()).push(tk),
            None => present(s.drop_last()),
        }
    }
}

/// The first alternative from the `i`th that reads a token at `p`, or the errors of all.
pub open spec fn sp_one_of(t: Seq<Token>, p: int, rules: Seq<TokenRule>, i: int) -> Result<(Token, int), Seq<ParseError>>
    decreases rules.len() - i,
{
    if 0 <= i < rules.len() {
        match sp_read(t, p, rules[i]) {
            Ok((tk, q)) => Ok((tk, q)),
            Err(e) => match sp_one_of(t, p, rules, i + 1) {
                Ok(x) => Ok(x),
                Err(es) => Err(seq![e] + es),
            },
        }
    } else {
        Err(seq![])
    }
}

/// The `Expect` rules for `kinds`, in order.
pub open spec fn expect_all(kinds: Seq<TokenKind>) -> Seq<TokenRule> {
    kinds.map_values(|k: TokenKind| TokenRule::Expect(k))
}

/// A choice among `Expect` rules from the `i`th reads the current token when one of
/// their kinds is its kind, and otherwise fails with one error per rule.
pub proof fn lemma_one_of_expect(t: Seq<Token>, p: int, kinds: Seq<TokenKind>, i: int)
    requires
        0 <= i <= kinds.len(),
    ensures
        sp_one_of(t, p, expect_all(kinds), i) == (if kinds.subrange(i, kinds.len() as int).contains(
            kind_at(t, p),
        ) {
            Ok::<(Token, int), Seq<ParseError>>((tok(t, p), adv(t, p)))
        } else {
            Err::<(Token, int), Seq<ParseError>>(
                kinds.subrange(i, kinds.len() as int).map_values(
                    |k: TokenKind| crate::parser::unexpected(t, p, k, false),
                ),
            )
        }),
    decreases kinds.len() - i,
{
    let rest = kinds.subrange(i, kinds.len() as int);
    if i < kinds.len() {
        lemma_one_of_expect(t, p, kinds, i + 1);
        let tail = kinds.subrange(i + 1, kinds.len() as int);
        assert(rest =~= seq![kinds[i]] + tail);
        assert(expect_all(kinds)[i] == TokenRule::Expect(kinds[i]));
        if kinds[i] == kind_at(t, p) {
            assert(rest[0] == kind_at(t, p));
        } else {
            assert(rest.contains(kind_at(t, p)) <==> tail.contains(kind_at(t, p))) by {
                if rest.contains(kind_at(t, p)) {
                    let j = choose|j: int| 0 <= j < rest.len() && rest[j] == kind_at(t, p);
                    assert(j > 0);
                    assert(tail[j - 1] == kind_at(t, p));
                }
                if tail.contains(kind_at(t, p)) {
                    let j = choose|j: int| 0 <= j < tail.len() && tail[j] == kind_at(t, p);
                    assert(rest[j + 1] == kind_at(t, p));
                }
            }
            let f = |k: TokenKind| crate::parser::unexpected(t, p, k, false);
            assert(rest.map_values(f) =~= seq![f(kinds[i])] + tail.map_values(f));
        }
    } else {
        assert(rest.len() == 0);
        assert(rest.map_values(|k: TokenKind| crate::parser::unexpected(t, p, k, false)) =~= Seq::<
            ParseError,
        >::empty());
    }
}

/// The `Try` rules for `kinds`, in order.
pub open spec fn try_all(kinds: Seq<TokenKind>) -> Seq<TokenRule> {
    kinds.map_values(|k: TokenKind| TokenRule::Try(k))
}

/// A choice among `Try` rules from the `i`th reads the current token when one of their
/// kinds is its kind, and otherwise fails with one lookahead error per rule.
pub proof fn lemma_one_of_try(t: Seq<Token>, p: int, kinds: Seq<TokenKind>, i: int)
    requires
        0 <= i <= kinds.len(),
    ensures
        sp_one_of(t, p, try_all(kinds), i) == (if kinds.subrange(i, kinds.len() as int).contains(
            kind_at(t, p),
        ) {
            Ok::<(Token, int), Seq<ParseError>>((tok(t, p), adv(t, p)))
        } else {
            Err::<(Token, int), Seq<ParseError>>(
                kinds.subrange(i, kinds.len() as int).map_values(
                    |k: TokenKind| crate::parser::unexpected(t, p, k, true),
                ),
            )
        }),
    decreases kinds.len() - i,
{
    let rest = kinds.subrange(i, kinds.len() as int);
    if i < kinds.len() {
        lemma_one_of_try(t, p, kinds, i + 1);
        let tail = kinds.subrange(i + 1, kinds.len() as int);
        assert(rest =~= seq![kinds[i]] + tail);
        assert(try_all(kinds)[i] == TokenRule::Try(kinds[i]));
        if kinds[i] == kind_at(t, p) {
            assert(rest[0] == kind_at(t, p));
        } else {
            assert(rest.contains(kind_at(t, p)) <==> tail.contains(kind_at(t, p))) by {
                if rest.contains(kind_at(t, p)) {
                    let j = choose|j: int| 0 <= j < rest.len() && rest[j] == kind_at(t, p);
                    assert(j > 0);
                    assert(tail[j - 1] == kind_at(t, p));
                }
                if tail.contains(kind_at(t, p)) {
                    let j = choose|j: int| 0 <= j < tail.len() && tail[j] == kind_at(t, p);
                    assert(rest[j + 1] == kind_at(t, p));
                }
            }
            let f = |k: TokenKind| crate::parser::unexpected(t, p, k, true);
            assert(rest.map_values(f) =~= seq![f(kinds[i])] + tail.map_values(f));
        }
    } else {
        assert(rest.len() == 0);
        assert(rest.map_values(|k: TokenKind| crate::parser::unexpected(t, p, k, true)) =~= Seq::<
            ParseError,
        >::empty());
    }
}

/// How many of the values are `true`.
pub open spec fn count_true(v: Seq<bool>) -> nat
    decreases v.len(),
{
    if v.len() == 0 {
        0
    } else {
        count_true(v.drop_last()) + if v.last() {
            1nat
        } else {
            0nat
        }
    }
}

/// Whether exactly one of the values holds; more than one must not.
pub fn at_most_one_is_true(values: &[bool]) -> (r: bool)
    requires
        count_true(values@) <= 1,
    ensures
        r == (count_true(values@) == 1),
{
    let mut n: usize = 0;
    let mut i: usize = 0;
    while i < values.len()
        invariant
            i <= values@.len(),
            n == count_true(values@.subrange(0, i as int)),
            count_true(values@) <= 1,
        decreases values.len() - i,
    {
        proof {
            assert(values@.subrange(0, i + 1).drop_last() =~= values@.subrange(0, i as int));
            lemma_count_true_prefix(values@, i + 1);
        }
        if values[i] {
            n = n + 1;
        }
        i = i + 1;
    }
    proof {
        assert(values@.subrange(0, i as int) =~= values@);
    }
    n == 1
}

/// No prefix has more `true` values than the whole.
pub proof fn lemma_count_true_prefix(v: Seq<bool>, i: int)
    requires
        0 <= i <= v.len(),
    ensures
        count_true(v.subrange(0, i)) <= count_true(v),
    decreases v.len(),
{
    if i < v.len() {
        lemma_count_true_prefix(v.drop_last(), i);
        assert(v.drop_last().subrange(0, i) =~= v.subrange(0, i));
    } else {
        assert(v.subrange(0, i) =~= v);
    }
}

/// A rule that reads one token of a fixed kind.
#[derive(Clone, Copy, PartialEq, Eq, Structural, Debug)]
pub struct ExactToken {
    pub kind: TokenKind,
}

impl ExactToken {
    /// Whether the current token has this kind.
    pub fn starts_now(&self, parser: &Parser) -> (r: bool)
        requires
            parser.wf(),
        ensures
            r == (kind_at(parser.tokens@, parser.pos as int) == self.kind),
    {
        parser.at(self.kind)
    }

    /// The current token, moving past it.
    pub fn parse(&self, parser: &mut Parser) -> (r: ParseResult<Token>)
        requires
            old(parser).wf(),
        ensures
            final(parser).wf(),
            final(parser).same(*old(parser)),
            r == Ok::<Token, ParseError>(tok(old(parser).tokens@, old(parser).pos as int)),
            final(parser).pos == crate::parser::adv(old(parser).tokens@, old(parser).pos as int),
    {
        Ok(parser.take_token())
    }
}

impl ParseError {
    /// `None` when the error only says that a rule did not start here (see
    /// `is_lookahead`), else the error itself.
    pub fn strip_lookaheads(self) -> (r: Option<ParseError>)
        ensures
            r == (if is_lookahead(self) {
                None
            } else {
                Some(self)
            }),
    {
        if self.is_lookahead() {
            None
        } else {
            Some(self)
        }
    }

    /// Whether the error only says that a rule did not start here.
    pub fn is_lookahead(&self) -> (r: bool)
        ensures
            r == is_lookahead(*self),
        decreases self,
    {
        match self {
            ParseError::TokenError { lookahead, .. } => *lookahead,
            ParseError::OneOfError { variants, .. } => {
                let mut i: usize = 0;
                while i < variants.len()
                    invariant
                        i <= variants@.len(),
                        is_lookahead(*self) == (forall|j: int|
                            0 <= j < variants@.len() ==> (#[trigger] variants@[j] matches ParseError::TokenError {
                                lookahead,
                                ..
                            } && lookahead)),
                        forall|j: int|
                            0 <= j < i ==> (#[trigger] variants@[j] matches ParseError::TokenError {
                                lookahead,
                                ..
                            } && lookahead),
                    decreases variants.len() - i,
                {
                    let ghost v = variants@[i as int];
                    match &variants[i] {
                        ParseError::TokenError { lookahead, .. } => {
                            if !*lookahead {
                                proof {
                                    assert(!(v matches ParseError::TokenError { lookahead, .. } && lookahead));
                                }
                                return false;
                            }
                        },
                        _ => {
                            proof {
                                assert(!(v matches ParseError::TokenError { lookahead, .. } && lookahead));
                            }
                            return false;
                        },
                    }
                    i = i + 1;
                }
                true
            },
            ParseError::SeqError { steps, error, .. } => steps.items.len() == 0 && error.is_lookahead(),
        }
    }
}

/// The record of the tokens of `a` and then `b`.
fn capture(a: &Vec<Token>, b: &Vec<Token>) -> (r: Captured)
    ensures
        r.items@ == captured_tokens(a@ + b@),
{
    let mut c = Captured::new();
    let mut i: usize = 0;
    while i < a.len()
        invariant
            i <= a@.len(),
            c.items@ == captured_tokens(a@.subrange(0, i as int)),
        decreases a.len() - i,
    {
        c.push_token(a[i]);
        proof {
            assert(a@.subrange(0, i + 1) =~= a@.subrange(0, i as int).push(a@[i as int]));
            assert(captured_tokens(a@.subrange(0, i + 1)) =~= captured_tokens(a@.subrange(0, i as int)).push(CapturedItem::Token(a@[i as int])));
        }
        i = i + 1;
    }
    let mut j: usize = 0;
    while j < b.len()
        invariant
            i == a@.len(),
            j <= b@.len(),
            c.items@ == captured_tokens(a@ + b@.subrange(0, j as int)),
        decreases b.len() - j,
    {
        c.push_token(b[j]);
        proof {
            assert(a@ + b@.subrange(0, j + 1) =~= (a@ + b@.subrange(0, j as int)).push(b@[j as int]));
            assert(captured_tokens(a@ + b@.subrange(0, j + 1)) =~= captured_tokens(a@ + b@.subrange(0, j as int)).push(CapturedItem::Token(b@[j as int])));
        }
        j = j + 1;
    }
    proof {
        assert(a@.subrange(0, i as int) =~= a@);
        assert(b@.subrange(0, j as int) =~= b@);
    }
    c
}

impl Parser {
    /// Reads a token by `rule`; see `read_end` for where it leaves the parser.
    pub fn read(&mut self, rule: TokenRule) -> (r: ParseResult<Token>)
        requires
            old(self).wf(),
        ensures
            final(self).ran_token(*old(self), r, sp_read(old(self).tokens@, old(self).pos as int, rule)),
            final(self).pos == read_end(old(self).tokens@, old(self).pos as int, rule),
    {
        match rule {
            TokenRule::Try(k) => self.try_token(k),
            TokenRule::Expect(k) => self.expect_token(k),
        }
    }

    /// A token read by `rule`, or `None` when it is not there and that is only a
    /// lookahead error.
    pub fn maybe(&mut self, rule: TokenRule) -> (r: ParseResult<Option<Token>>)
        requires
            old(self).wf(),
        ensures
            final(self).wf(),
            final(self).same(*old(self)),
            match sp_read(old(self).tokens@, old(self).pos as int, rule) {
                Ok((tk, q)) => r == Ok::<Option<Token>, ParseError>(Some(tk)) && final(self).pos == q,
                Err(e) => final(self).pos == read_end(old(self).tokens@, old(self).pos as int, rule) && if is_lookahead(e) {
                    r == Ok::<Option<Token>, ParseError>(None)
                } else {
                    r == Err::<Option<Token>, ParseError>(e)
                },
            },
    {
        match self.read(rule) {
            Ok(t) => Ok(Some(t)),
            Err(e) => match e.strip_lookaheads() {
                Some(e) => Err(e),
                None => Ok(None),
            },
        }
    }

    /// The steps of a sequence, one token each; on failure, an error of the rule `name`
    /// that records the tokens read before.
    pub fn all_of(&mut self, name: &'static str, steps: &[Step]) -> (r: ParseResult<Vec<Option<Token>>>)
        requires
            old(self).wf(),
        ensures
            final(self).wf(),
            final(self).same(*old(self)),
            match sp_all_of(old(self).tokens@, old(self).pos as int, steps@, 0, seq![]) {
                (None, toks, q) => r matches Ok(v) && v@ == toks && final(self).pos == q,
                (Some(e), toks, _) => r matches Err(err) && is_seq_error(err, name, present(toks), e),
            },
    {
        let mut acc: Vec<Option<Token>> = Vec::new();
        let mut i: usize = 0;
        while i < steps.len()
            invariant
                self.wf(),
                self.same(*old(self)),
                i <= steps@.len(),
                sp_all_of(old(self).tokens@, old(self).pos as int, steps@, 0, seq![]) == sp_all_of(
                    self.tokens@,
                    self.pos as int,
                    steps@,
                    i as int,
                    acc@,
                ),
            decreases steps.len() - i,
        {
            let step = steps[i];
            let (rule, optional) = match step {
                Step::Required(rule) => (rule, false),
                Step::Optional(rule) => (rule, true),
            };
            match self.read(rule) {
                Ok(t) => acc.push(Some(t)),
                Err(e) => {
                    if optional && e.is_lookahead() {
                        acc.push(None);
                    } else {
                        let mut got: Vec<Token> = Vec::new();
                        let mut j: usize = 0;
                        while j < acc.len()
                            invariant
                                j <= acc@.len(),
                                got@ == present(acc@.subrange(0, j as int)),
                            decreases acc.len() - j,
                        {
                            proof {
                                assert(acc@.subrange(0, j + 1).drop_last() =~= acc@.subrange(0, j as int));
                            }
                            match acc[j] {
                                Some(t) => got.push(t),
                                None => {},
                            }
                            j = j + 1;
                        }
                        proof {
                            assert(acc@.subrange(0, j as int) =~= acc@);
                        }
                        let steps_read = capture(&got, &Vec::new());
                        proof {
                            assert(got@ + Seq::<Token>::empty() =~= got@);
                        }
                        return Err(ParseError::seq_error(name, steps_read, e));
                    }
                },
            }
            i = i + 1;
        }
        Ok(acc)
    }

    /// The first of `rules` that reads a token here; when none does, an error of the rule
    /// `name` with the error of each.
    pub fn one_of(&mut self, name: &'static str, rules: &[TokenRule]) -> (r: ParseResult<Token>)
        requires
            old(self).wf(),
        ensures
            final(self).wf(),
            final(self).same(*old(self)),
            match sp_one_of(old(self).tokens@, old(self).pos as int, rules@, 0) {
                Ok((tk, q)) => r == Ok::<Token, ParseError>(tk) && final(self).pos == q,
                Err(es) => final(self).pos == old(self).pos && (r matches Err(ParseError::OneOfError { name: n, variants }) && n == name && variants@ == es),
            },
    {
        let mut errors: Vec<ParseError> = Vec::new();
        let mut i: usize = 0;
        while i < rules.len()
            invariant
                self.wf(),
                self.same(*old(self)),
                self.pos == old(self).pos,
                i <= rules@.len(),
                match sp_one_of(old(self).tokens@, old(self).pos as int, rules@, 0) {
                    Ok(x) => sp_one_of(old(self).tokens@, old(self).pos as int, rules@, i as int) == Ok::<(Token, int), Seq<ParseError>>(x),
                    Err(es) => sp_one_of(old(self).tokens@, old(self).pos as int, rules@, i as int) matches Err(rest) && es == errors@ + rest,
                },
            decreases rules.len() - i,
        {
            let checkpoint = self.new_checkpoint();
            match self.read(rules[i]) {
                Ok(t) => {
                    return Ok(t);
                },
                Err(e) => {
                    errors.push(e);
                    self.restore(checkpoint);
                },
            }
            i = i + 1;
        }
        proof {
            match sp_one_of(old(self).tokens@, old(self).pos as int, rules@, 0) {
                Ok(_) => {},
                Err(es) => {
                    assert(errors@ + Seq::<ParseError>::empty() =~= errors@);
                },
            }
        }
        Err(ParseError::OneOfError { name, variants: errors })
    }

    /// `rule` read at least once: the tokens read. The first failure is returned as it
    /// is; a later one that is not a lookahead error fails the rule `name`.
    pub fn at_least_once(&mut self, name: &'static str, rule: TokenRule) -> (r: ParseResult<Vec<Token>>)
        requires
            old(self).wf(),
        ensures
            final(self).wf(),
            final(self).same(*old(self)),
            match sp_at_least_once(old(self).tokens@, old(self).pos as int, rule) {
                Outcome::Done(s, q) => r matches Ok(v) && v@ == s && final(self).pos == q,
                Outcome::Failed(e) => r == Err::<Vec<Token>, ParseError>(e),
                Outcome::FailedAfter(s, e) => r matches Err(err) && is_seq_error(err, name, s, e),
            },
    {
        let p = self.pos;
        let first = match self.read(rule) {
            Ok(t) => t,
            Err(e) => return Err(e),
        };
        let mut items: Vec<Token> = Vec::new();
        items.push(first);
        if !(p < self.pos) {
            return Ok(items);
        }
        loop
            invariant
                self.wf(),
                self.same(*old(self)),
                sp_at_least_once(old(self).tokens@, old(self).pos as int, rule) == sp_repeat(
                    self.tokens@,
                    self.pos as int,
                    rule,
                    items@,
                ),
            decreases self.tokens@.len() - self.pos,
        {
            let q = self.pos;
            match self.read(rule) {
                Ok(t) => {
                    items.push(t);
                    if !(q < self.pos) {
                        return Ok(items);
                    }
                },
                Err(e) => {
                    if e.is_lookahead() {
                        return Ok(items);
                    } else {
                        let steps_read = capture(&items, &Vec::new());
                        proof {
                            assert(items@ + Seq::<Token>::empty() =~= items@);
                        }
                        return Err(ParseError::seq_error(name, steps_read, e));
                    }
                },
            }
        }
    }

    /// Items read by `item` separated by tokens read by `sep`: the items and the
    /// separators. The first item must come (its error is returned as it is); the list
    /// ends before a missing separator or before a separator that no item follows.
    pub fn separated_by(&mut self, name: &'static str, item: TokenRule, sep: TokenRule) -> (r: ParseResult<(Vec<Token>, Vec<Token>)>)
        requires
            old(self).wf(),
        ensures
            final(self).wf(),
            final(self).same(*old(self)),
            match sp_read(old(self).tokens@, old(self).pos as int, item) {
                Ok((x, q)) => match sp_separated(old(self).tokens@, q, item, sep, seq![x], seq![]) {
                    (items, seps, q2) => r matches Ok((v, w)) && v@ == items && w@ == seps && final(self).pos == q2,
                },
                Err(e) => r == Err::<(Vec<Token>, Vec<Token>), ParseError>(e),
            },
    {
        let first = match self.read(item) {
            Ok(t) => t,
            Err(e) => return Err(e),
        };
        let mut items: Vec<Token> = Vec::new();
        items.push(first);
        let mut seps: Vec<Token> = Vec::new();
        let ghost start = self.pos;
        loop
            invariant
                self.wf(),
                self.same(*old(self)),
                match sp_read(old(self).tokens@, old(self).pos as int, item) {
                    Ok((x, q)) => sp_separated(old(self).tokens@, q, item, sep, seq![x], seq![]) == sp_separated(
                        self.tokens@,
                        self.pos as int,
                        item,
                        sep,
                        items@,
                        seps@,
                    ),
                    Err(_) => false,
                },
            decreases self.tokens@.len() - self.pos,
        {
            let checkpoint = self.new_checkpoint();
            let p = self.pos;
            let s = match self.read(sep) {
                Ok(s) => s,
                Err(_) => {
                    return Ok((items, seps));
                },
            };
            seps.push(s);
            match self.read(item) {
                Ok(x) => {
                    items.push(x);
                    if !(p < self.pos) {
                        return Ok((items, seps));
                    }
                },
                Err(_) => {
                    self.restore(checkpoint);
                    return Ok((items, seps));
                },
            }
        }
    }

    /// Pairs of tokens read by `first` and then `second`: the tokens of each. The
    /// repetition ends when `first` fails or before a lookahead error of `second`;
    /// another error of `second` fails the rule `name`.
    pub fn repeat2(&mut self, name: &'static str, first: TokenRule, second: TokenRule) -> (r: ParseResult<(Vec<Token>, Vec<Token>)>)
        requires
            old(self).wf(),
        ensures
            final(self).wf(),
            final(self).same(*old(self)),
            match sp_repeat2(old(self).tokens@, old(self).pos as int, first, second, seq![], seq![]) {
                (o, firsts, seconds) => lists_res(r, final(self).pos, name, o) && (r matches Ok((v, w)) ==> v@ == firsts && w@ == seconds),
            },
    {
        let mut firsts: Vec<Token> = Vec::new();
        let mut seconds: Vec<Token> = Vec::new();
        loop
            invariant
                self.wf(),
                self.same(*old(self)),
                sp_repeat2(old(self).tokens@, old(self).pos as int, first, second, seq![], seq![]) == sp_repeat2(
                    self.tokens@,
                    self.pos as int,
                    first,
                    second,
                    firsts@,
                    seconds@,
                ),
            decreases self.tokens@.len() - self.pos,
        {
            let p = self.pos;
            let a = match self.read(first) {
                Ok(a) => a,
                Err(_) => {
                    return Ok((firsts, seconds));
                },
            };
            firsts.push(a);
            match self.read(second) {
                Ok(b) => {
                    seconds.push(b);
                    if !(p < self.pos) {
                        return Ok((firsts, seconds));
                    }
                },
                Err(e) => {
                    if e.is_lookahead() {
                        return Ok((firsts, seconds));
                    } else {
                        let steps_read = capture(&firsts, &seconds);
                        return Err(ParseError::seq_error(name, steps_read, e));
                    }
                },
            }
        }
    }
}

// ---------------------------------------------------------------------------
// Laws of the combinators.
// ---------------------------------------------------------------------------

/// The kind of token a rule reads.
pub open spec fn rule_kind(rule: TokenRule) -> TokenKind {
    match rule {
        TokenRule::Try(k) => k,
        TokenRule::Expect(k) => k,
    }
}

/// A read by `Try` fails with a lookahead error and a read by `Expect` with one that is
/// not; both succeed on the same tokens, with the same result.
pub proof fn law_try_and_expect(t: Seq<Token>, p: int, k: TokenKind)
    ensures
        sp_read(t, p, TokenRule::Try(k)) is Ok <==> sp_read(t, p, TokenRule::Expect(k)) is Ok,
        sp_read(t, p, TokenRule::Try(k)) is Ok ==> sp_read(t, p, TokenRule::Try(k)) == sp_read(
            t,
            p,
            TokenRule::Expect(k),
        ),
        sp_read(t, p, TokenRule::Try(k)) matches Err(e) ==> is_lookahead(e),
        sp_read(t, p, TokenRule::Expect(k)) matches Err(e) ==> !is_lookahead(e),
{
}

/// Every token a read returns has the rule's kind.
pub proof fn lemma_read_kind(t: Seq<Token>, p: int, rule: TokenRule)
    ensures
        sp_read(t, p, rule) matches Ok((tk, _)) ==> tk.kind == rule_kind(rule),
{
}

/// Repeating a read from `acc` only adds tokens of the rule's kind.
pub proof fn lemma_repeat_kind(t: Seq<Token>, p: int, rule: TokenRule, acc: Seq<Token>)
    ensures
        sp_repeat(t, p, rule, acc) matches Outcome::Done(s, _) ==> s.len() >= acc.len() && s.subrange(
            0,
            acc.len() as int,
        ) == acc && forall|i: int| acc.len() <= i < s.len() ==> #[trigger] s[i].kind == rule_kind(rule),
    decreases t.len() - p,
{
    lemma_read_kind(t, p, rule);
    match sp_read(t, p, rule) {
        Ok((tk, q)) => if progress(t, p, q) {
            lemma_repeat_kind(t, q, rule, acc.push(tk));
            match sp_repeat(t, q, rule, acc.push(tk)) {
                Outcome::Done(s, _) => {
                    assert(s.subrange(0, acc.len() as int) =~= acc.push(tk).subrange(0, acc.len() as int));
                    assert forall|i: int| acc.len() <= i < s.len() implies #[trigger] s[i].kind == rule_kind(rule) by {
                        if i == acc.len() {
                            assert(s[i] == s.subrange(0, acc.len() as int + 1)[i]);
                        }
                    }
                },
                _ => {},
            }
        } else {
            assert(acc.push(tk).subrange(0, acc.len() as int) =~= acc);
        },
        Err(_) => {
            assert(acc.subrange(0, acc.len() as int) =~= acc);
        },
    }
}

/// `at_least_once` succeeds with at least one token, and only with tokens of the rule's
/// kind.
pub proof fn law_at_least_once_kind(t: Seq<Token>, p: int, rule: TokenRule)
    ensures
        sp_at_least_once(t, p, rule) matches Outcome::Done(s, _) ==> s.len() >= 1 && forall|i: int|
            0 <= i < s.len() ==> #[trigger] s[i].kind == rule_kind(rule),
{
    lemma_read_kind(t, p, rule);
    match sp_read(t, p, rule) {
        Ok((tk, q)) => if progress(t, p, q) {
            lemma_repeat_kind(t, q, rule, seq![tk]);
            match sp_repeat(t, q, rule, seq![tk]) {
                Outcome::Done(s, _) => {
                    assert forall|i: int| 0 <= i < s.len() implies #[trigger] s[i].kind == rule_kind(rule) by {
                        if i == 0 {
                            assert(s[0] == s.subrange(0, 1)[0]);
                        }
                    }
                },
                _ => {},
            }
        },
        Err(_) => {},
    }
}

/// A list separated by `sep` has one separator fewer than items, or as many when it
/// ends before a separator that no item follows; the items have the item rule's kind
/// and the separators the separator rule's kind.
pub proof fn law_separated_counts(
    t: Seq<Token>,
    p: int,
    item: TokenRule,
    sep: TokenRule,
    items: Seq<Token>,
    seps: Seq<Token>,
)
    requires
        items.len() == seps.len() + 1,
        forall|i: int| 0 <= i < items.len() ==> #[trigger] items[i].kind == rule_kind(item),
        forall|i: int| 0 <= i < seps.len() ==> #[trigger] seps[i].kind == rule_kind(sep),
    ensures
        ({
            let (is, ss, _) = sp_separated(t, p, item, sep, items, seps);
            &&& is.len() == ss.len() + 1 || is.len() == ss.len()
            &&& forall|i: int| 0 <= i < is.len() ==> #[trigger] is[i].kind == rule_kind(item)
            &&& forall|i: int| 0 <= i < ss.len() ==> #[trigger] ss[i].kind == rule_kind(sep)
        }),
    decreases t.len() - p,
{
    lemma_read_kind(t, p, sep);
    match sp_read(t, p, sep) {
        Ok((s, q)) => {
            lemma_read_kind(t, q, item);
            match sp_read(t, q, item) {
                Ok((x, q2)) => {
                    assert forall|i: int| 0 <= i < items.push(x).len() implies #[trigger] items.push(x)[i].kind == rule_kind(item) by {
                        if i < items.len() {
                            assert(items.push(x)[i] == items[i]);
                        }
                    }
                    assert forall|i: int| 0 <= i < seps.push(s).len() implies #[trigger] seps.push(s)[i].kind == rule_kind(sep) by {
                        if i < seps.len() {
                            assert(seps.push(s)[i] == seps[i]);
                        }
                    }
                    if progress(t, p, q2) {
                        law_separated_counts(t, q2, item, sep, items.push(x), seps.push(s));
                    }
                },
                Err(_) => {
                    assert forall|i: int| 0 <= i < seps.push(s).len() implies #[trigger] seps.push(s)[i].kind == rule_kind(sep) by {
                        if i < seps.len() {
                            assert(seps.push(s)[i] == seps[i]);
                        }
                    }
                },
            }
        },
        Err(_) => {},
    }
}

/// `repeat2` ends with as many second tokens as first ones, or one fewer (when the
/// repetition stopped before a lookahead error of the second rule).
pub proof fn law_repeat2_counts(
    t: Seq<Token>,
    p: int,
    first: TokenRule,
    second: TokenRule,
    firsts: Seq<Token>,
    seconds: Seq<Token>,
)
    requires
        firsts.len() == seconds.len(),
    ensures
        ({
            let (o, fs, ss) = sp_repeat2(t, p, first, second, firsts, seconds);
            o is Done ==> (fs.len() == ss.len() || fs.len() == ss.len() + 1)
        }),
    decreases t.len() - p,
{
    match sp_read(t, p, first) {
        Ok((a, q)) => match sp_read(t, q, second) {
            Ok((b, q2)) => if progress(t, p, q2) {
                law_repeat2_counts(t, q2, first, second, firsts.push(a), seconds.push(b));
            },
            Err(_) => {},
        },
        Err(_) => {},
    }
}

} // verus!
