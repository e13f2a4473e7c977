//! The properties the generator keeps across a whole file, stated and
//! proved over the same spec functions that the executable functions'
//! contracts use: the balance of scope-closing emissions, the fallback
//! return under every top-level function's closing brace, and the exact
//! shape of the argument forwarding behind a registered method.

use vstd::prelude::*;

use crate::expression::{args_full, args_fwd};
use crate::generator::{closing_line, is_entry, scope_close};
use crate::lexer::is_digit;
use crate::text::{dec_digits, digit_char, tab_indent};

verus! {

/// How many times `c` occurs in `s`.
pub open spec fn count_char(s: Seq<char>, c: char) -> int
    decreases s.len(),
{
    if s.len() == 0 {
        0
    } else {
        (if s[0] == c {
            1int
        } else {
            0int
        }) + count_char(s.drop_first(), c)
    }
}

proof fn lemma_count_char_add(a: Seq<char>, b: Seq<char>, c: char)
    ensures
        count_char(a + b, c) == count_char(a, c) + count_char(b, c),
    decreases a.len(),
{
    if a.len() == 0 {
        assert(a + b =~= b);
    } else {
        assert((a + b).drop_first() =~= a.drop_first() + b);
        assert((a + b)[0] == a[0]);
        lemma_count_char_add(a.drop_first(), b, c);
    }
}

proof fn lemma_count_char_none(s: Seq<char>, c: char)
    requires
        forall|j: int| 0 <= j < s.len() ==> s[j] != c,
    ensures
        count_char(s, c) == 0,
    decreases s.len(),
{
    if s.len() > 0 {
        assert(forall|j: int|
            0 <= j < s.drop_first().len() ==> #[trigger] s.drop_first()[j] == s[j + 1]);
        lemma_count_char_none(s.drop_first(), c);
    }
}

proof fn lemma_count_char_last(s: Seq<char>, c: char)
    requires
        s.len() > 0,
        s[s.len() - 1] == c,
        forall|j: int| 0 <= j < s.len() - 1 ==> s[j] != c,
    ensures
        count_char(s, c) == 1,
{
    let k = s.len() - 1;
    assert(s.take(k) + s.skip(k) =~= s);
    lemma_count_char_add(s.take(k), s.skip(k), c);
    assert(forall|j: int| 0 <= j < s.take(k).len() ==> #[trigger] s.take(k)[j] == s[j]);
    lemma_count_char_none(s.take(k), c);
    let tailp = s.skip(k);
    assert(tailp.len() == 1);
    assert(tailp[0] == c);
    assert(tailp.drop_first() =~= Seq::<char>::empty());
    assert(count_char(tailp.drop_first(), c) == 0);
}

proof fn lemma_count_tab_indent(n: nat, c: char)
    requires
        c != '\t',
    ensures
        count_char(tab_indent(n), c) == 0,
    decreases n,
{
    reveal_strlit("\t");
    if n == 0 {
        assert(count_char(tab_indent(0), c) == 0);
    } else {
        lemma_count_tab_indent((n - 1) as nat, c);
        lemma_count_char_add(tab_indent((n - 1) as nat), "\t"@, c);
        assert(forall|j: int| 0 <= j < "\t"@.len() ==> "\t"@[j] != c);
        lemma_count_char_none("\t"@, c);
    }
}

/// Every scope-closing line closes exactly one brace.
pub proof fn lemma_closing_line_one_brace(fname: Seq<char>, lvl: nat)
    ensures
        count_char(closing_line(fname, lvl), '}') == 1,
{
    reveal_strlit("\treturn Value(nullptr);\n}");
    reveal_strlit("}");
    reveal_strlit("\n");
    let body = if !is_entry(fname) && lvl == 0 {
        "\treturn Value(nullptr);\n}"@
    } else {
        "}"@
    };
    lemma_count_char_add(tab_indent(lvl) + body, "\n"@, '}');
    lemma_count_char_add(tab_indent(lvl), body, '}');
    lemma_count_tab_indent(lvl, '}');
    assert(forall|j: int| 0 <= j < "\n"@.len() ==> "\n"@[j] != '}');
    lemma_count_char_none("\n"@, '}');
    if !is_entry(fname) && lvl == 0 {
        assert(body.len() == 25);
        assert(body[24] == '}');
        assert(forall|j: int| 0 <= j < 24 ==> body[j] != '}');
        lemma_count_char_last(body, '}');
    } else {
        lemma_count_char_last(body, '}');
    }
}

/// A dedent from depth `last` to depth `tabs` closes exactly one brace
/// per level stepped down, and nothing otherwise.
pub proof fn lemma_scope_close_braces(fname: Seq<char>, tabs: nat, last: nat)
    ensures
        count_char(scope_close(fname, tabs, last), '}') == if tabs < last {
            last - tabs
        } else {
            0int
        },
    decreases last,
{
    if last <= tabs {
        assert(scope_close(fname, tabs, last) =~= Seq::<char>::empty());
    } else {
        lemma_count_char_add(
            closing_line(fname, (last - 1) as nat),
            scope_close(fname, tabs, (last - 1) as nat),
            '}',
        );
        lemma_closing_line_one_brace(fname, (last - 1) as nat);
        lemma_scope_close_braces(fname, tabs, (last - 1) as nat);
    }
}

/// The closing braces emitted over a whole file whose lines sit at the
/// depths `ds`: for each line, the braces of the dedent from the previous
/// depth, and at end of file the braces that close everything still open.
pub open spec fn total_emissions(fname: Seq<char>, ds: Seq<nat>, last: nat) -> int
    decreases ds.len(),
{
    if ds.len() == 0 {
        count_char(scope_close(fname, 0, last), '}')
    } else {
        count_char(scope_close(fname, ds[0], last), '}') + total_emissions(
            fname,
            ds.drop_first(),
            ds[0],
        )
    }
}

/// The scope openings over a file whose lines sit at the depths `ds`:
/// each line that sits deeper than the one before opens that many blocks.
pub open spec fn total_rises(ds: Seq<nat>, last: nat) -> int
    decreases ds.len(),
{
    if ds.len() == 0 {
        0
    } else {
        (if ds[0] > last {
            ds[0] - last
        } else {
            0int
        }) + total_rises(ds.drop_first(), ds[0])
    }
}

proof fn lemma_balance_from(fname: Seq<char>, ds: Seq<nat>, last: nat)
    ensures
        total_emissions(fname, ds, last) == last + total_rises(ds, last),
    decreases ds.len(),
{
    if ds.len() == 0 {
        lemma_scope_close_braces(fname, 0, last);
    } else {
        lemma_scope_close_braces(fname, ds[0], last);
        lemma_balance_from(fname, ds.drop_first(), ds[0]);
    }
}

/// Brace balance: over any well-formed file whose non-blank lines sit at
/// the depths `ds`, starting at depth zero, the number of closing braces
/// in all scope-closing emissions — each dedent's, plus the end-of-file
/// closing of whatever is still open — equals the number of scope
/// openings, the total of all depth increases. In particular the file
/// ends with zero open scopes: the end-of-file emission closes exactly
/// what the openings left unclosed.
pub proof fn lemma_brace_balance(fname: Seq<char>, ds: Seq<nat>)
    ensures
        total_emissions(fname, ds, 0) == total_rises(ds, 0),
{
    lemma_balance_from(fname, ds, 0);
}

/// The deepest depth among `ds`, or zero for no lines.
pub open spec fn max_depth(ds: Seq<nat>) -> int
    decreases ds.len(),
{
    if ds.len() == 0 {
        0
    } else if ds[0] >= max_depth(ds.drop_first()) {
        ds[0] as int
    } else {
        max_depth(ds.drop_first())
    }
}

/// A depth profile that never rises again once it has fallen below
/// `last`: the nonincreasing tail of a single-peaked file.
pub open spec fn nonincreasing(ds: Seq<nat>, last: nat) -> bool
    decreases ds.len(),
{
    ds.len() == 0 || (ds[0] <= last && nonincreasing(ds.drop_first(), ds[0]))
}

/// A single-peaked depth profile seen from depth `last`: it may keep
/// rising for a while, and from some point on it only falls.
pub open spec fn single_peak(ds: Seq<nat>, last: nat) -> bool
    decreases ds.len(),
{
    nonincreasing(ds, last) || (ds.len() > 0 && ds[0] >= last && single_peak(
        ds.drop_first(),
        ds[0],
    ))
}

proof fn lemma_nonincreasing_rises(ds: Seq<nat>, last: nat)
    requires
        nonincreasing(ds, last),
    ensures
        total_rises(ds, last) == 0,
        max_depth(ds) <= last,
    decreases ds.len(),
{
    if ds.len() > 0 {
        lemma_nonincreasing_rises(ds.drop_first(), ds[0]);
    }
}

proof fn lemma_single_peak_rises(ds: Seq<nat>, last: nat)
    requires
        single_peak(ds, last),
    ensures
        last + total_rises(ds, last) == if max_depth(ds) >= last {
            max_depth(ds)
        } else {
            last as int
        },
    decreases ds.len(),
{
    if nonincreasing(ds, last) {
        lemma_nonincreasing_rises(ds, last);
    } else {
        lemma_single_peak_rises(ds.drop_first(), ds[0]);
    }
}

/// Brace balance, in the form the single-peaked file enjoys: when the
/// depth profile rises to its maximum once and then only falls — a file
/// holding one nested construct — the number of closing braces across
/// all scope-closing emissions equals exactly the maximum indentation
/// depth reached.
pub proof fn lemma_brace_balance_single_peak(fname: Seq<char>, ds: Seq<nat>)
    requires
        single_peak(ds, 0),
    ensures
        total_emissions(fname, ds, 0) == max_depth(ds),
{
    lemma_balance_from(fname, ds, 0);
    lemma_single_peak_rises(ds, 0);
}

/// Fallback return: in a non-entry module, the emission that closes the
/// top level — a function body — ends with a `return Value(nullptr);`
/// immediately before the final closing brace, whatever the body's own
/// `return` statements did. Every generated top-level function body
/// therefore has a return reachable from its closing brace.
pub proof fn lemma_fallback_return(fname: Seq<char>, last: nat)
    requires
        !is_entry(fname),
        last > 0,
    ensures
        scope_close(fname, 0, last) == scope_close(fname, 1, last)
            + "\treturn Value(nullptr);\n}\n"@,
{
    crate::generator::lemma_scope_close_bottom(fname, 0, last);
    reveal_strlit("\treturn Value(nullptr);\n}");
    reveal_strlit("\treturn Value(nullptr);\n}\n");
    reveal_strlit("\n");
    assert(closing_line(fname, 0) =~= "\treturn Value(nullptr);\n}\n"@);
}

proof fn lemma_dec_digits_are_digits(n: nat)
    ensures
        forall|j: int| 0 <= j < dec_digits(n).len() ==> is_digit(#[trigger] dec_digits(n)[j]),
    decreases n,
{
    if n < 10 {
    } else {
        lemma_dec_digits_are_digits(n / 10);
        assert(forall|j: int|
            0 <= j < dec_digits(n / 10).len() ==> #[trigger] dec_digits(n)[j] == dec_digits(
                n / 10,
            )[j]);
        assert(dec_digits(n)[dec_digits(n).len() - 1] == digit_char((n % 10) as int));
    }
}

proof fn lemma_count_args_full(n: nat, c: char)
    requires
        c == '[' || c == ',',
    ensures
        count_char(args_full(n), c) == n,
    decreases n,
{
    reveal_strlit("args[");
    reveal_strlit("], ");
    if n == 0 {
    } else {
        lemma_count_args_full((n - 1) as nat, c);
        let d = dec_digits((n - 1) as nat);
        lemma_count_char_add(args_full((n - 1) as nat) + "args["@ + d, "], "@, c);
        lemma_count_char_add(args_full((n - 1) as nat) + "args["@, d, c);
        lemma_count_char_add(args_full((n - 1) as nat), "args["@, c);
        lemma_dec_digits_are_digits((n - 1) as nat);
        assert(forall|j: int| 0 <= j < d.len() ==> d[j] != c) by {
            assert(forall|j: int| 0 <= j < d.len() ==> is_digit(#[trigger] d[j]));
        }
        lemma_count_char_none(d, c);
        if c == '[' {
            lemma_count_char_last("args["@, c);
            assert(forall|j: int| 0 <= j < "], "@.len() ==> "], "@[j] != c);
            lemma_count_char_none("], "@, c);
        } else {
            assert(forall|j: int| 0 <= j < "args["@.len() ==> "args["@[j] != c);
            lemma_count_char_none("args["@, c);
            assert("], "@[1] == c);
            assert(count_char("], "@, c) == 1) by {
                assert("], "@.take(2)[1] == c);
                assert("], "@.take(2)[0] != c);
                lemma_count_char_last("], "@.take(2), c);
                assert("], "@.take(2) + "], "@.skip(2) =~= "], "@);
                lemma_count_char_add("], "@.take(2), "], "@.skip(2), c);
                assert(forall|j: int| 0 <= j < "], "@.skip(2).len() ==> "], "@.skip(2)[j] != c);
                lemma_count_char_none("], "@.skip(2), c);
            }
        }
    }
}

/// Positional forwarding: the forwarding list behind a method of arity
/// `n` indexes the argument vector exactly `n` times and separates
/// exactly `n` entries — the registered callable hands the flat function
/// every argument positionally, and nothing else.
pub proof fn lemma_args_forwarding(n: nat)
    ensures
        count_char(args_fwd(n), '[') == n,
        count_char(args_fwd(n), ',') == if n == 0 {
            0int
        } else {
            n - 1
        },
{
    reveal_strlit("args[");
    reveal_strlit("], ");
    if n == 0 {
        assert(count_char(args_fwd(0), '[') == 0);
        assert(count_char(args_fwd(0), ',') == 0);
    } else {
        let full = args_full(n);
        lemma_count_args_full(n, '[');
        lemma_count_args_full(n, ',');
        lemma_args_full_tail(n);
        let k = full.len() - 2;
        assert(full.take(k) + full.skip(k) =~= full);
        lemma_count_char_add(full.take(k), full.skip(k), '[');
        lemma_count_char_add(full.take(k), full.skip(k), ',');
        assert(full.skip(k) =~= ", "@);
        reveal_strlit(", ");
        assert(forall|j: int| 0 <= j < ", "@.len() ==> ", "@[j] != '[');
        lemma_count_char_none(", "@, '[');
        assert(", "@[0] == ',');
        assert(", "@[1] != ',');
        assert(count_char(", "@, ',') == 1) by {
            assert(", "@.take(1)[0] == ',');
            lemma_count_char_last(", "@.take(1), ',');
            assert(", "@.take(1) + ", "@.skip(1) =~= ", "@);
            lemma_count_char_add(", "@.take(1), ", "@.skip(1), ',');
            assert(forall|j: int| 0 <= j < ", "@.skip(1).len() ==> ", "@.skip(1)[j] != ',');
            lemma_count_char_none(", "@.skip(1), ',');
        }
        assert(args_fwd(n) == full.take(k));
    }
}

/// The forwarding list with its trailing separator ends in `", "`.
proof fn lemma_args_full_tail(n: nat)
    requires
        n > 0,
    ensures
        args_full(n).len() >= 2,
        args_full(n).skip(args_full(n).len() - 2) =~= ", "@,
    decreases n,
{
    reveal_strlit("args[");
    reveal_strlit("], ");
    reveal_strlit(", ");
    let full = args_full(n);
    let k = full.len() - 2;
    assert(full == args_full((n - 1) as nat) + "args["@ + dec_digits((n - 1) as nat) + "], "@);
    assert(full[full.len() - 2] == "], "@[1]);
    assert(full[full.len() - 1] == "], "@[2]);
    assert(full.skip(k) =~= ", "@);
}

} // verus!
