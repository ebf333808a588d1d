//! The client's lockfile: `name:pid:port:password:protocol`.

use vstd::prelude::*;
use crate::decimal::{decimal_text, law_u32_text_round_trip, lemma_decimal_text_digits, is_digit, parse_u32, parse_u32_text};

verus! {

/// The pieces of `s` between `:` separators, as `str::split(":")` yields them.
pub open spec fn split_colon(s: Seq<char>) -> Seq<Seq<char>>
    decreases s.len(),
{
    if s.len() == 0 {
        seq![Seq::<char>::empty()]
    } else {
        let prev = split_colon(s.drop_last());
        if s.last() == ':' {
            prev.push(Seq::<char>::empty())
        } else {
            prev.update(prev.len() - 1, prev.last().push(s.last()))
        }
    }
}

/// What the lockfile says: the port of the local API and its password.
pub struct Lockfile {
    pub port: u32,
    pub password: String,
}

/// The port that a lockfile names, if its third field reads as a port number.
pub open spec fn lockfile_port(contents: Seq<char>) -> Option<u32> {
    let fields = split_colon(contents);
    if fields.len() >= 4 {
        parse_u32_text(fields[2])
    } else {
        None
    }
}

/// The password that a lockfile names: its fourth field.
pub open spec fn lockfile_password(contents: Seq<char>) -> Seq<char> {
    split_colon(contents)[3]
}

/// `split_colon` always yields at least one piece.
pub proof fn lemma_split_colon_nonempty(s: Seq<char>)
    ensures
        split_colon(s).len() >= 1,
    decreases s.len(),
{
    if s.len() > 0 {
        lemma_split_colon_nonempty(s.drop_last());
    }
}

/// Splits `s` at every `:`.
pub fn split_on_colon(s: &str) -> (fields: Vec<String>)
    ensures
        fields@.map_values(|f: String| f@) == split_colon(s@),
{
    let len = s.unicode_len();
    let mut fields: Vec<String> = Vec::new();
    let mut start: usize = 0;
    let mut i: usize = 0;
    assert(s@.take(0) =~= Seq::<char>::empty());
    assert(fields@.map_values(|f: String| f@).push(s@.subrange(0, 0)) =~= split_colon(s@.take(0)));
    while i < len
        invariant
            len == s@.len(),
            start <= i <= len,
            fields@.map_values(|f: String| f@).push(s@.subrange(start as int, i as int))
                == split_colon(s@.take(i as int)),
        decreases len - i,
    {
        let c = s.get_char(i);
        let ghost before = fields@.map_values(|f: String| f@);
        let ghost t = s@.take(i + 1);
        assert(t.drop_last() =~= s@.take(i as int));
        assert(t.last() == c);
        if c == ':' {
            let piece = s.substring_char(start, i).to_owned();
            let ghost old_start = start;
            fields.push(piece);
            start = i + 1;
            assert(fields@.map_values(|f: String| f@) =~= before.push(s@.subrange(old_start as int, i as int)));
            assert(s@.subrange(start as int, i + 1) =~= Seq::<char>::empty());
        } else {
            let ghost prev = before.push(s@.subrange(start as int, i as int));
            assert(s@.subrange(start as int, i + 1) =~= s@.subrange(start as int, i as int).push(c));
            assert(before.push(s@.subrange(start as int, i + 1))
                =~= prev.update(prev.len() - 1, prev.last().push(c)));
        }
        i = i + 1;
    }
    let piece = s.substring_char(start, len).to_owned();
    fields.push(piece);
    assert(s@.take(len as int) =~= s@);
    assert(fields@.map_values(|f: String| f@)
        =~= split_colon(s@.take(i as int)));
    fields
}

/// Reads the port and the password out of the lockfile's contents.
/// `None` where the lockfile has fewer than four fields, or a third field
/// that is not a 32-bit number.
pub fn parse_lockfile(contents: &str) -> (r: Option<Lockfile>)
    ensures
        r is Some <==> lockfile_port(contents@) is Some,
        r matches Some(l) ==> {
            &&& Some(l.port) == lockfile_port(contents@)
            &&& l.password@ == lockfile_password(contents@)
        },
{
    let fields = split_on_colon(contents);
    proof {
        assert(fields@.map_values(|f: String| f@).len() == fields@.len());
    }
    if fields.len() < 4 {
        return None;
    }
    assert(fields@.map_values(|f: String| f@)[2] == fields@[2]@);
    assert(fields@.map_values(|f: String| f@)[3] == fields@[3]@);
    match parse_u32(fields[2].as_str()) {
        None => None,
        Some(port) => Some(Lockfile { port, password: fields[3].clone() }),
    }
}

/// Whether `s` holds no `:`.
pub open spec fn no_colon(s: Seq<char>) -> bool {
    forall|i: int| 0 <= i < s.len() ==> #[trigger] s[i] != ':'
}

/// A piece without `:` splits into itself.
pub proof fn lemma_split_colon_single(s: Seq<char>)
    requires
        no_colon(s),
    ensures
        split_colon(s) == seq![s],
    decreases s.len(),
{
    if s.len() > 0 {
        let p = s.drop_last();
        assert(no_colon(p)) by {
            assert forall|i: int| 0 <= i < p.len() implies #[trigger] p[i] != ':' by {
                assert(p[i] == s[i]);
            }
        }
        lemma_split_colon_single(p);
        assert(s.last() == s[s.len() - 1]);
        assert(p.push(s.last()) =~= s);
        assert(split_colon(s) =~= seq![s]);
    } else {
        assert(s =~= Seq::<char>::empty());
    }
}

/// Splitting at a `:` that joins two texts splits each of them.
pub proof fn lemma_split_colon_join(x: Seq<char>, y: Seq<char>)
    ensures
        split_colon(x + seq![':'] + y) == split_colon(x) + split_colon(y),
    decreases y.len(),
{
    let z = x + seq![':'] + y;
    if y.len() == 0 {
        assert(z.drop_last() =~= x);
        assert(z.last() == ':');
        assert(split_colon(y) =~= seq![Seq::<char>::empty()]);
        assert(split_colon(z) =~= split_colon(x) + split_colon(y));
    } else {
        let yp = y.drop_last();
        lemma_split_colon_join(x, yp);
        lemma_split_colon_nonempty(yp);
        lemma_split_colon_nonempty(x);
        assert(z.drop_last() =~= x + seq![':'] + yp);
        assert(z.last() == y.last());
        let a = split_colon(x);
        let b = split_colon(yp);
        if y.last() == ':' {
            assert(split_colon(z) =~= a + b.push(Seq::<char>::empty()));
        } else {
            assert((a + b).update((a + b).len() - 1, (a + b).last().push(y.last()))
                =~= a + b.update(b.len() - 1, b.last().push(y.last())));
        }
    }
}

/// Law: a lockfile written as `name:pid:port:password:protocol`, with no `:`
/// in the first four fields, reads back as that port and password.
pub proof fn law_lockfile_round_trip(
    name: Seq<char>,
    pid: Seq<char>,
    port: u32,
    password: Seq<char>,
    protocol: Seq<char>,
)
    requires
        no_colon(name),
        no_colon(pid),
        no_colon(password),
    ensures
        ({
            let text = name + seq![':'] + pid + seq![':'] + decimal_text(port as nat) + seq![':']
                + password + seq![':'] + protocol;
            &&& lockfile_port(text) == Some(port)
            &&& lockfile_password(text) == password
        }),
{
    let d = decimal_text(port as nat);
    lemma_decimal_text_digits(port as nat);
    assert(no_colon(d)) by {
        assert forall|i: int| 0 <= i < d.len() implies #[trigger] d[i] != ':' by {
            assert(is_digit(d[i]));
        }
    }
    law_u32_text_round_trip(port);
    lemma_split_colon_single(name);
    lemma_split_colon_single(pid);
    lemma_split_colon_single(d);
    lemma_split_colon_single(password);
    lemma_split_colon_nonempty(protocol);
    let t1 = name + seq![':'] + pid;
    let t2 = t1 + seq![':'] + d;
    let t3 = t2 + seq![':'] + password;
    let t4 = t3 + seq![':'] + protocol;
    lemma_split_colon_join(name, pid);
    lemma_split_colon_join(t1, d);
    lemma_split_colon_join(t2, password);
    lemma_split_colon_join(t3, protocol);
    let text = name + seq![':'] + pid + seq![':'] + d + seq![':'] + password + seq![':'] + protocol;
    assert(text =~= t4);
    let f = split_colon(t4);
    assert(f == seq![name, pid, d, password] + split_colon(protocol));
    assert(f[2] == d);
    assert(f[3] == password);
}

} // verus!
