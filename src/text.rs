use vstd::prelude::*;
use vstd::string::*;

verus! {

/// A row holds no line terminator.
pub open spec fn single_row(s: Seq<char>) -> bool {
    forall|i: int| 0 <= i < s.len() ==> s[i] != '\n'
}

/// Every row of `rows` holds no line terminator.
pub open spec fn all_single_rows(rows: Seq<Seq<char>>) -> bool {
    forall|i: int| 0 <= i < rows.len() ==> single_row(#[trigger] rows[i])
}

/// The text of `rows`: each row followed by one `'\n'`, in order.
pub open spec fn serialized(rows: Seq<Seq<char>>) -> Seq<char>
    decreases rows.len(),
{
    if rows.len() == 0 {
        Seq::empty()
    } else {
        serialized(rows.drop_last()) + rows.last() + seq!['\n']
    }
}

/// `text` with a final `'\n'` added when its last record is unterminated.
pub open spec fn terminated(text: Seq<char>) -> Seq<char> {
    if text.len() == 0 || text.last() == '\n' {
        text
    } else {
        text.push('\n')
    }
}

/// `rows` are the newline-terminated records of `text`, terminators stripped.
pub open spec fn records_of(text: Seq<char>, rows: Seq<Seq<char>>) -> bool {
    serialized(rows) == terminated(text) && all_single_rows(rows)
}

/// The views of a sequence of strings.
pub open spec fn string_views(v: Seq<String>) -> Seq<Seq<char>> {
    v.map_values(|s: String| s@)
}

/// The serialized text of rows is empty or ends with a terminator.
pub proof fn lemma_serialized_ends_in_terminator(rows: Seq<Seq<char>>)
    ensures
        rows.len() == 0 <==> serialized(rows).len() == 0,
        rows.len() > 0 ==> serialized(rows).last() == '\n',
        terminated(serialized(rows)) == serialized(rows),
{
}

/// Rows without terminators are recovered from their serialized text.
pub proof fn lemma_serialized_injective(a: Seq<Seq<char>>, b: Seq<Seq<char>>)
    requires
        all_single_rows(a),
        all_single_rows(b),
        serialized(a) == serialized(b),
    ensures
        a == b,
    decreases a.len(),
{
    lemma_serialized_ends_in_terminator(a);
    lemma_serialized_ends_in_terminator(b);
    if a.len() == 0 || b.len() == 0 {
        assert(a =~= b);
    } else {
        let xa = serialized(a.drop_last());
        let xb = serialized(b.drop_last());
        let la = a.last();
        let lb = b.last();
        let s = serialized(a);
        assert(single_row(la) && single_row(lb)) by {
            assert(la == a[a.len() - 1]);
            assert(lb == b[b.len() - 1]);
        }
        lemma_serialized_ends_in_terminator(a.drop_last());
        lemma_serialized_ends_in_terminator(b.drop_last());
        assert(s == xa + la + seq!['\n']);
        assert(s == xb + lb + seq!['\n']);
        if la.len() < lb.len() {
            let p = xa.len() - 1;
            assert(xa.len() > xb.len());
            assert(s[p] == xa.last());
            assert(s[p] == lb[p - xb.len()]);
        } else if lb.len() < la.len() {
            let p = xb.len() - 1;
            assert(xb.len() > xa.len());
            assert(s[p] == xb.last());
            assert(s[p] == la[p - xa.len()]);
        }
        assert(la.len() == lb.len());
        assert(xa =~= s.take(xa.len() as int));
        assert(xb =~= s.take(xb.len() as int));
        assert(la =~= s.subrange(xa.len() as int, (xa.len() + la.len()) as int));
        assert(lb =~= s.subrange(xb.len() as int, (xb.len() + lb.len()) as int));
        assert(all_single_rows(a.drop_last()));
        assert(all_single_rows(b.drop_last()));
        lemma_serialized_injective(a.drop_last(), b.drop_last());
        assert(a =~= a.drop_last().push(la));
        assert(b =~= b.drop_last().push(lb));
    }
}

/// The character of a decimal digit.
pub open spec fn digit_char(d: nat) -> char {
    seq!['0', '1', '2', '3', '4', '5', '6', '7', '8', '9'][d as int]
}

/// The decimal notation of `n`: no sign, no leading zeros.
pub open spec fn decimal(n: nat) -> Seq<char>
    decreases n,
{
    if n < 10 {
        seq![digit_char(n)]
    } else {
        decimal(n / 10).push(digit_char(n % 10))
    }
}

/// Relies on usize's Display impl (ToString::to_string): plain decimal digits.
#[verifier::external_body]
pub(crate) fn usize_to_decimal(n: usize) -> (r: String)
    ensures
        r@ == decimal(n as nat),
{
    n.to_string()
}

/// Relies on String::push: appends one character at the end.
#[verifier::external_body]
pub(crate) fn push_char(s: &mut String, c: char)
    ensures
        final(s)@ == old(s)@.push(c),
{
    s.push(c)
}

/// Splits `text` into its newline-terminated records, terminators stripped.
/// A final record without a terminator is kept; an empty text has no records.
pub fn parse_lines(text: &str) -> (r: Vec<String>)
    ensures
        records_of(text@, string_views(r@)),
{
    let n = text.unicode_len();
    let mut done: Vec<String> = Vec::new();
    let mut cur = String::new();
    let mut i: usize = 0;
    while i < n
        invariant
            n == text@.len(),
            i <= n,
            serialized(string_views(done@)) + cur@ == text@.take(i as int),
            all_single_rows(string_views(done@)),
            single_row(cur@),
            cur@.len() == 0 && i > 0 ==> text@[i - 1] == '\n',
        decreases n - i,
    {
        let c = text.get_char(i);
        proof {
            assert(text@.take(i + 1) =~= text@.take(i as int).push(c));
        }
        if c == '\n' {
            let ghost before = string_views(done@);
            let ghost row = cur@;
            done.push(cur);
            cur = String::new();
            proof {
                assert(string_views(done@) =~= before.push(row));
                assert(string_views(done@).drop_last() =~= before);
                assert(serialized(string_views(done@)) + cur@ =~= text@.take(i + 1));
            }
        } else {
            push_char(&mut cur, c);
            proof {
                assert(serialized(string_views(done@)) + cur@ =~= text@.take(i + 1));
            }
        }
        i = i + 1;
    }
    proof {
        assert(text@.take(n as int) =~= text@);
    }
    if cur.unicode_len() > 0 {
        let ghost before = string_views(done@);
        let ghost row = cur@;
        done.push(cur);
        proof {
            assert(string_views(done@) =~= before.push(row));
            assert(string_views(done@).drop_last() =~= before);
            assert(text@.last() == row.last());
            assert(serialized(string_views(done@)) =~= terminated(text@));
        }
    }
    done
}

} // verus!
