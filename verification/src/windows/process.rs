//! Command-line construction for processes started inside an AppContainer,
//! following the quoting rules of `CommandLineToArgvW`.

use vstd::prelude::*;

use crate::text::{chars_of, join_with, push_str, string_of};

verus! {

/// `n` backslashes.
pub open spec fn backslashes(n: nat) -> Seq<char> {
    Seq::new(n, |_i: int| '\\')
}

/// Whether an argument has to be wrapped in double quotes.
pub open spec fn needs_quotes(s: Seq<char>) -> bool {
    exists|i: int|
        0 <= i < s.len() && (s[i] == ' ' || s[i] == '\t' || s[i] == '\n' || s[i] == '\r' || s[i]
            == '"')
}

/// The quoted body of `s` when `pending` backslashes precede it: a run of
/// backslashes is doubled before a double quote (which is itself escaped) and
/// before the closing quote, and kept as it is elsewhere.
pub open spec fn quoted_body(s: Seq<char>, pending: nat) -> Seq<char>
    decreases s.len(),
{
    if s.len() == 0 {
        backslashes(2 * pending)
    } else if s[0] == '\\' {
        quoted_body(s.drop_first(), pending + 1)
    } else if s[0] == '"' {
        backslashes(2 * pending + 1) + seq!['"'] + quoted_body(s.drop_first(), 0)
    } else {
        backslashes(pending) + seq![s[0]] + quoted_body(s.drop_first(), 0)
    }
}

/// One argument as it appears on a Windows command line.
pub open spec fn spec_quote_arg(s: Seq<char>) -> Seq<char> {
    if s.len() == 0 {
        seq!['"', '"']
    } else if !needs_quotes(s) {
        s
    } else {
        seq!['"'] + quoted_body(s, 0) + seq!['"']
    }
}

fn push_backslashes(out: &mut Vec<char>, n: usize)
    ensures
        final(out)@ == old(out)@ + backslashes(n as nat),
{
    let mut i: usize = 0;
    while i < n
        invariant
            i <= n,
            out@ == old(out)@ + backslashes(i as nat),
        decreases n - i,
    {
        out.push('\\');
        i = i + 1;
        assert(out@ == old(out)@ + backslashes(i as nat));
    }
}

proof fn lemma_body_step(s: Seq<char>, i: int, pending: nat)
    requires
        0 <= i < s.len(),
    ensures
        quoted_body(s.skip(i), pending) == if s[i] == '\\' {
            quoted_body(s.skip(i + 1), pending + 1)
        } else if s[i] == '"' {
            backslashes(2 * pending + 1) + seq!['"'] + quoted_body(s.skip(i + 1), 0)
        } else {
            backslashes(pending) + seq![s[i]] + quoted_body(s.skip(i + 1), 0)
        },
{
    assert(s.skip(i).drop_first() == s.skip(i + 1));
    assert(s.skip(i)[0] == s[i]);
}

/// Quotes one argument for a Windows command line.
pub fn quote_arg(input: &str) -> (out: String)
    ensures
        out@ == spec_quote_arg(input@),
{
    let v = chars_of(input);
    if v.len() == 0 {
        let mut out = String::new();
        out.push('"');
        out.push('"');
        return out;
    }
    let mut found = false;
    let mut k: usize = 0;
    while k < v.len()
        invariant
            k <= v.len(),
            found == exists|j: int|
                0 <= j < k && (v@[j] == ' ' || v@[j] == '\t' || v@[j] == '\n' || v@[j] == '\r'
                    || v@[j] == '"'),
        decreases v.len() - k,
    {
        let c = v[k];
        if c == ' ' || c == '\t' || c == '\n' || c == '\r' || c == '"' {
            found = true;
        }
        k = k + 1;
    }
    if !found {
        return string_of(&v);
    }
    let mut q: Vec<char> = Vec::new();
    q.push('"');
    let mut pending: usize = 0;
    let mut i: usize = 0;
    proof {
        assert(v@.skip(0) == v@);
    }
    while i < v.len()
        invariant
            v@ == input@,
            i <= v.len(),
            pending <= i,
            seq!['"'] + quoted_body(v@, 0) == q@ + quoted_body(v@.skip(i as int), pending as nat),
        decreases v.len() - i,
    {
        let c = v[i];
        proof {
            lemma_body_step(v@, i as int, pending as nat);
        }
        if c == '\\' {
            pending = pending + 1;
        } else if c == '"' {
            push_backslashes(&mut q, pending);
            push_backslashes(&mut q, pending);
            q.push('\\');
            q.push('"');
            proof {
                assert(backslashes(pending as nat) + backslashes(pending as nat) + seq!['\\']
                    == backslashes(2 * pending as nat + 1));
            }
            pending = 0;
        } else {
            push_backslashes(&mut q, pending);
            q.push(c);
            pending = 0;
        }
        i = i + 1;
    }
    push_backslashes(&mut q, pending);
    push_backslashes(&mut q, pending);
    q.push('"');
    proof {
        assert(v@.skip(i as int).len() == 0);
        assert(backslashes(pending as nat) + backslashes(pending as nat) == backslashes(
            2 * pending as nat,
        ));
    }
    string_of(&q)
}

} // verus!

verus! {

/// The command line of `program` with `args`: each quoted, separated by one space.
pub open spec fn spec_command_line(program: Seq<char>, args: Seq<String>) -> Seq<char> {
    join_with(
        seq![spec_quote_arg(program)] + args.map_values(|a: String| spec_quote_arg(a@)),
        seq![' '],
    )
}

/// Builds the command line that starts `program` with `args`.
pub fn command_line(program: &str, args: &Vec<String>) -> (out: String)
    ensures
        out@ == spec_command_line(program@, args@),
{
    let ghost parts = seq![spec_quote_arg(program@)] + args@.map_values(
        |a: String| spec_quote_arg(a@),
    );
    let mut out: Vec<char> = Vec::new();
    let first = quote_arg(program);
    push_str(&mut out, first.as_str());
    let mut i: usize = 0;
    proof {
        assert(parts.take(1) == seq![spec_quote_arg(program@)]);
    }
    while i < args.len()
        invariant
            i <= args.len(),
            parts == seq![spec_quote_arg(program@)] + args@.map_values(
                |a: String| spec_quote_arg(a@),
            ),
            out@ == join_with(parts.take(i + 1), seq![' ']),
        decreases args.len() - i,
    {
        let q = quote_arg(args[i].as_str());
        out.push(' ');
        push_str(&mut out, q.as_str());
        proof {
            let t = parts.take(i + 2);
            assert(t.drop_last() == parts.take(i + 1));
            assert(t.last() == q@);
        }
        i = i + 1;
    }
    proof {
        assert(parts.take(args.len() + 1) == parts);
    }
    string_of(&out)
}

} // verus!

verus! {

/// How `CommandLineToArgvW` reads a quoted argument from just after its
/// opening quote, with `n` backslashes pending: backslashes before a double
/// quote are halved, and the quote is a literal one when their number is odd
/// and the closing quote when it is even; other backslashes are literal. The
/// reading succeeds when the closing quote is the text's last character.
pub open spec fn read_quoted(t: Seq<char>, n: nat) -> Option<Seq<char>>
    decreases t.len(),
{
    if t.len() == 0 {
        None
    } else if t[0] == '\\' {
        read_quoted(t.drop_first(), n + 1)
    } else if t[0] == '"' {
        if n % 2 == 0 {
            if t.len() == 1 {
                Some(backslashes(n / 2))
            } else {
                None
            }
        } else {
            match read_quoted(t.drop_first(), 0) {
                Some(r) => Some(backslashes(n / 2) + seq!['"'] + r),
                None => None,
            }
        }
    } else {
        match read_quoted(t.drop_first(), 0) {
            Some(r) => Some(backslashes(n) + seq![t[0]] + r),
            None => None,
        }
    }
}

proof fn lemma_read_backslashes(k: nat, t: Seq<char>, n: nat)
    ensures
        read_quoted(backslashes(k) + t, n) == read_quoted(t, n + k),
    decreases k,
{
    if k > 0 {
        let b = backslashes(k) + t;
        assert(b[0] == '\\');
        assert(b.drop_first() =~= backslashes((k - 1) as nat) + t);
        lemma_read_backslashes((k - 1) as nat, t, n + 1);
    } else {
        assert(backslashes(0) + t =~= t);
    }
}

proof fn lemma_read_quoted_body(s: Seq<char>, p: nat)
    ensures
        read_quoted(quoted_body(s, p) + seq!['"'], 0) == Some(backslashes(p) + s),
    decreases s.len(),
{
    let q = seq!['"'];
    if s.len() == 0 {
        lemma_read_backslashes(2 * p, q, 0);
        assert((2 * p) % 2 == 0) by (nonlinear_arith);
        assert((2 * p) / 2 == p) by (nonlinear_arith);
        assert(backslashes(p) + s =~= backslashes(p));
    } else if s[0] == '\\' {
        lemma_read_quoted_body(s.drop_first(), p + 1);
        assert(backslashes(p + 1) + s.drop_first() =~= backslashes(p) + s);
    } else if s[0] == '"' {
        let rest = quoted_body(s.drop_first(), 0);
        lemma_read_quoted_body(s.drop_first(), 0);
        let t = seq!['"'] + rest + q;
        assert(quoted_body(s, p) + q =~= backslashes(2 * p + 1) + t);
        lemma_read_backslashes(2 * p + 1, t, 0);
        assert((2 * p + 1) % 2 == 1) by (nonlinear_arith);
        assert((2 * p + 1) / 2 == p) by (nonlinear_arith);
        assert(t.drop_first() =~= rest + q);
        assert(backslashes(0) + s.drop_first() =~= s.drop_first());
        assert(backslashes(p) + seq!['"'] + s.drop_first() =~= backslashes(p) + s);
    } else {
        let rest = quoted_body(s.drop_first(), 0);
        lemma_read_quoted_body(s.drop_first(), 0);
        let t = seq![s[0]] + rest + q;
        assert(quoted_body(s, p) + q =~= backslashes(p) + t);
        lemma_read_backslashes(p, t, 0);
        assert(t.drop_first() =~= rest + q);
        assert(backslashes(0) + s.drop_first() =~= s.drop_first());
        assert(backslashes(p) + seq![s[0]] + s.drop_first() =~= backslashes(p) + s);
    }
}

/// Quoting an argument loses nothing: an argument with no white space or
/// double quote (and not empty) is written as it is; any other one is
/// written in double quotes, and `CommandLineToArgvW` reads exactly the
/// argument back from the text after the opening quote.
pub proof fn lemma_quote_arg_reads_back(s: Seq<char>)
    ensures
        s.len() > 0 && !needs_quotes(s) ==> spec_quote_arg(s) == s,
        !(s.len() > 0 && !needs_quotes(s)) ==> spec_quote_arg(s).len() > 0 && spec_quote_arg(s)[0]
            == '"' && read_quoted(spec_quote_arg(s).drop_first(), 0) == Some(s),
{
    if s.len() == 0 {
        let t = spec_quote_arg(s).drop_first();
        assert(t =~= seq!['"']);
        assert(backslashes(0) =~= s);
    } else if needs_quotes(s) {
        lemma_read_quoted_body(s, 0);
        assert(spec_quote_arg(s).drop_first() =~= quoted_body(s, 0) + seq!['"']);
        assert(backslashes(0) + s =~= s);
    }
}

} // verus!
