//! The registry's persistence format: a JSON document
//! `{"jails":{<name>:<record>,...}}` with the record fields in a fixed
//! order. The encoder and the parser are exact inverses, which is proved
//! below; the parser additionally rejects documents with duplicate names,
//! so a parsed registry always satisfies the registry invariant.
//!
//! Inside strings the two JSON metacharacters `"` and `\` are escaped with
//! a backslash; all other characters are carried verbatim.

use vstd::prelude::*;

use crate::error::Error;
use crate::state::{wf_v, JailInfo, JailInfoV, State};
use crate::strutil::{chars_to_string, dec_nat, str_to_chars};

verus! {

/// The escape of a single string character.
pub open spec fn esc_char(c: char) -> Seq<char> {
    if c == '"' || c == '\\' {
        seq!['\\', c]
    } else {
        seq![c]
    }
}

/// The escaped body of a string.
pub open spec fn esc(s: Seq<char>) -> Seq<char>
    decreases s.len(),
{
    if s.len() == 0 {
        Seq::empty()
    } else {
        esc_char(s[0]) + esc(s.drop_first())
    }
}

/// A quoted, escaped JSON string.
pub open spec fn enc_str(s: Seq<char>) -> Seq<char> {
    seq!['"'] + esc(s) + seq!['"']
}

/// Escaping distributes over appending one character.
proof fn lemma_esc_snoc(s: Seq<char>, c: char)
    ensures
        esc(s.push(c)) == esc(s) + esc_char(c),
    decreases s.len(),
{
    if s.len() == 0 {
        assert(s.push(c) =~= seq![c]);
        assert(seq![c].drop_first() =~= Seq::<char>::empty());
        assert(esc(seq![c]) == esc_char(c) + esc(Seq::<char>::empty()));
        assert(esc(Seq::<char>::empty()) == Seq::<char>::empty());
        assert(esc(s.push(c)) =~= esc(s) + esc_char(c));
    } else {
        assert(s.push(c).drop_first() =~= s.drop_first().push(c));
        lemma_esc_snoc(s.drop_first(), c);
        assert(esc(s.push(c)) =~= esc(s) + esc_char(c));
    }
}

/// Consumes the body of a string up to its closing quote, undoing escapes;
/// yields the string's characters and the rest of the input.
pub open spec fn sp_str_body(v: Seq<char>) -> Option<(Seq<char>, Seq<char>)>
    decreases v.len(),
{
    if v.len() == 0 {
        None
    } else if v[0] == '"' {
        Some((Seq::empty(), v.drop_first()))
    } else if v[0] == '\\' {
        if v.len() >= 2 && (v[1] == '"' || v[1] == '\\') {
            match sp_str_body(v.skip(2)) {
                None => None,
                Some((s, r)) => Some((seq![v[1]] + s, r)),
            }
        } else {
            None
        }
    } else {
        match sp_str_body(v.drop_first()) {
            None => None,
            Some((s, r)) => Some((seq![v[0]] + s, r)),
        }
    }
}

/// Consumes a quoted JSON string.
pub open spec fn sp_string(v: Seq<char>) -> Option<(Seq<char>, Seq<char>)> {
    if v.len() > 0 && v[0] == '"' {
        sp_str_body(v.drop_first())
    } else {
        None
    }
}

/// The string parser undoes the string encoder, whatever follows.
pub proof fn lemma_string_round_trip(s: Seq<char>, rest: Seq<char>)
    ensures
        sp_string(enc_str(s) + rest) == Some((s, rest)),
{
    let v = enc_str(s) + rest;
    assert(v[0] == '"');
    assert(v.drop_first() =~= esc(s) + seq!['"'] + rest);
    lemma_str_body_round_trip(s, rest);
}

/// The body parser undoes escaping, whatever follows the closing quote.
proof fn lemma_str_body_round_trip(s: Seq<char>, rest: Seq<char>)
    ensures
        sp_str_body(esc(s) + seq!['"'] + rest) == Some((s, rest)),
    decreases s.len(),
{
    let v = esc(s) + seq!['"'] + rest;
    if s.len() == 0 {
        assert(v[0] == '"');
        assert(v.drop_first() =~= rest);
    } else {
        let c = s[0];
        lemma_str_body_round_trip(s.drop_first(), rest);
        if c == '"' || c == '\\' {
            assert(v[0] == '\\');
            assert(v[1] == c);
            assert(v.len() >= 2);
            assert(v.skip(2) =~= esc(s.drop_first()) + seq!['"'] + rest);
            assert(seq![c] + s.drop_first() =~= s);
        } else {
            assert(v[0] == c);
            assert(v.drop_first() =~= esc(s.drop_first()) + seq!['"'] + rest);
            assert(seq![c] + s.drop_first() =~= s);
        }
    }
}

/// A decimal digit character.
pub open spec fn is_digit(c: char) -> bool {
    '0' <= c && c <= '9'
}

/// The numeric value of a decimal digit character.
pub open spec fn digit_val(c: char) -> nat {
    ((c as int) - 48) as nat
}

/// Ten to the `k`.
pub open spec fn pow10(k: nat) -> nat
    decreases k,
{
    if k == 0 {
        1
    } else {
        10 * pow10((k - 1) as nat)
    }
}

/// Consumes leading digits, folding them onto `acc`; yields the value and
/// the rest of the input.
pub open spec fn munch_digits(v: Seq<char>, acc: nat) -> (nat, Seq<char>)
    decreases v.len(),
{
    if v.len() > 0 && is_digit(v[0]) {
        munch_digits(v.drop_first(), acc * 10 + digit_val(v[0]))
    } else {
        (acc, v)
    }
}

/// Consumes a nonempty run of digits as a number.
pub open spec fn sp_number(v: Seq<char>) -> Option<(nat, Seq<char>)> {
    if v.len() > 0 && is_digit(v[0]) {
        Some(munch_digits(v, 0))
    } else {
        None
    }
}

/// Every character of a decimal rendering is a digit, the first included,
/// and the digit characters carry back their values.
proof fn lemma_dec_nat_digits(n: nat)
    ensures
        dec_nat(n).len() >= 1,
        forall|i: int| 0 <= i < dec_nat(n).len() ==> is_digit(#[trigger] dec_nat(n)[i]),
    decreases n,
{
    if n < 10 {
        assert(is_digit(crate::strutil::dec_digit(n)));
    } else {
        lemma_dec_nat_digits(n / 10);
        assert(is_digit(crate::strutil::dec_digit(n % 10)));
    }
}

/// A digit character of a rendering carries back the digit's value.
proof fn lemma_dec_digit_val(d: nat)
    requires
        d < 10,
    ensures
        digit_val(crate::strutil::dec_digit(d)) == d,
{
}

/// Folding the digits of `n` onto `acc` scales `acc` past them and adds `n`.
proof fn lemma_munch_dec(n: nat, acc: nat, rest: Seq<char>)
    ensures
        munch_digits(dec_nat(n) + rest, acc) == munch_digits(
            rest,
            acc * pow10(dec_nat(n).len()) + n,
        ),
    decreases n,
{
    lemma_dec_nat_digits(n);
    if n < 10 {
        let v = dec_nat(n) + rest;
        assert(v[0] == crate::strutil::dec_digit(n));
        lemma_dec_digit_val(n);
        assert(v.drop_first() =~= rest);
        assert(pow10(0) == 1);
        assert(pow10(1) == 10);
    } else {
        let d = n % 10;
        let hd = dec_nat(n / 10);
        assert(dec_nat(n) =~= hd + seq![crate::strutil::dec_digit(d)]);
        let mid = seq![crate::strutil::dec_digit(d)] + rest;
        assert(dec_nat(n) + rest =~= hd + mid);
        lemma_munch_dec(n / 10, acc, mid);
        let a2 = acc * pow10(hd.len()) + n / 10;
        assert(mid[0] == crate::strutil::dec_digit(d));
        lemma_dec_digit_val(d);
        assert(is_digit(mid[0]));
        assert(mid.drop_first() =~= rest);
        assert(munch_digits(mid, a2) == munch_digits(rest, a2 * 10 + d));
        assert(dec_nat(n).len() == hd.len() + 1);
        assert(pow10(hd.len() + 1) == 10 * pow10(hd.len()));
        assert(a2 * 10 + d == acc * pow10(dec_nat(n).len()) + n) by (nonlinear_arith)
            requires
                a2 == acc * pow10(hd.len()) + n / 10,
                d == n % 10,
                n >= 10,
                pow10(dec_nat(n).len()) == 10 * pow10(hd.len());
    }
}

/// The number parser undoes the decimal encoder when what follows does not
/// begin with a digit.
pub proof fn lemma_number_round_trip(n: u64, rest: Seq<char>)
    requires
        rest.len() == 0 || !is_digit(rest[0]),
    ensures
        sp_number(dec_nat(n as nat) + rest) == Some((n as nat, rest)),
{
    lemma_dec_nat_digits(n as nat);
    let v = dec_nat(n as nat) + rest;
    assert(v[0] == dec_nat(n as nat)[0]);
    lemma_munch_dec(n as nat, 0, rest);
    assert(0 * pow10(dec_nat(n as nat).len()) + n as nat == n as nat) by (nonlinear_arith);
    assert(munch_digits(rest, n as nat) == (n as nat, rest));
}

/// The folded value never falls below the accumulator it started from.
proof fn lemma_munch_lower_bound(v: Seq<char>, acc: nat)
    ensures
        munch_digits(v, acc).0 >= acc,
    decreases v.len(),
{
    if v.len() > 0 && is_digit(v[0]) {
        lemma_munch_lower_bound(v.drop_first(), acc * 10 + digit_val(v[0]));
        assert(acc * 10 + digit_val(v[0]) >= acc) by (nonlinear_arith);
    }
}

/// Appends the decimal rendering of `n` to `out`.
pub fn emit_u64(out: &mut Vec<char>, n: u64)
    ensures
        final(out)@ == old(out)@ + dec_nat(n as nat),
{
    let mut v = crate::strutil::u64_to_dec_chars(n);
    out.append(&mut v);
}

/// Parses a run of digits starting at position `i` as a number; a run
/// whose value does not fit in sixty-four bits is rejected.
pub fn parse_u64(v: &Vec<char>, i: usize) -> (r: Option<(u64, usize)>)
    requires
        i <= v@.len(),
    ensures
        match r {
            None => sp_number(v@.skip(i as int)) is None || (sp_number(v@.skip(i as int))
                matches Some((n, _)) && n > u64::MAX),
            Some((x, j)) => i < j <= v@.len() && sp_number(v@.skip(i as int)) == Some(
                (x as nat, v@.skip(j as int)),
            ),
        },
{
    if i >= v.len() {
        return None;
    }
    let c0 = v[i];
    if !('0' <= c0 && c0 <= '9') {
        proof {
            assert(v@.skip(i as int)[0] == c0);
        }
        return None;
    }
    let mut acc: u64 = 0;
    let mut k: usize = i;
    proof {
        assert(v@.skip(i as int)[0] == c0);
        assert(sp_number(v@.skip(i as int)) == Some(munch_digits(v@.skip(i as int), 0)));
    }
    loop
        invariant
            i <= k <= v@.len(),
            i < v@.len(),
            is_digit(v@[i as int]),
            sp_number(v@.skip(i as int)) == Some(munch_digits(v@.skip(k as int), acc as nat)),
        decreases v@.len() - k,
    {
        if k >= v.len() {
            proof {
                assert(v@.skip(k as int) =~= Seq::<char>::empty());
            }
            return Some((acc, k));
        }
        let c = v[k];
        proof {
            assert(v@.skip(k as int)[0] == c);
        }
        if !('0' <= c && c <= '9') {
            proof {
                assert(k > i) by {
                    if k == i {
                        assert(is_digit(v@[i as int]));
                    }
                }
            }
            return Some((acc, k));
        }
        let d: u64 = (c as u32 - 48) as u64;
        if acc > (u64::MAX - d) / 10 {
            proof {
                lemma_munch_lower_bound(v@.skip(k as int).drop_first(), acc as nat * 10 + d as nat);
                assert(acc as nat * 10 + d as nat > u64::MAX) by (nonlinear_arith)
                    requires
                        (acc as nat) > (u64::MAX - d as nat) / 10,
                        (d as nat) < 10;
            }
            return None;
        }
        proof {
            assert(acc as nat * 10 + d as nat <= u64::MAX) by (nonlinear_arith)
                requires
                    (acc as nat) <= (u64::MAX - d as nat) / 10,
                    (d as nat) < 10;
            assert(v@.skip(k as int).drop_first() =~= v@.skip(k + 1 as int));
            assert(digit_val(c) == d as nat);
        }
        acc = acc * 10 + d;
        k = k + 1;
    }
}

/// Consumes the exact literal `lit` from the front of the input.
pub open spec fn sp_lit(v: Seq<char>, lit: Seq<char>) -> Option<Seq<char>> {
    if lit.is_prefix_of(v) {
        Some(v.skip(lit.len() as int))
    } else {
        None
    }
}

/// The literal parser undoes prepending that literal.
pub proof fn lemma_lit_round_trip(lit: Seq<char>, rest: Seq<char>)
    ensures
        sp_lit(lit + rest, lit) == Some(rest),
{
    assert((lit + rest).subrange(0, lit.len() as int) =~= lit);
    assert(lit.is_prefix_of(lit + rest));
    assert((lit + rest).skip(lit.len() as int) =~= rest);
}

/// A parsed string leaves a strictly shorter rest.
proof fn lemma_sp_str_body_consumes(v: Seq<char>)
    ensures
        sp_str_body(v) matches Some((s, r)) ==> r.len() < v.len(),
    decreases v.len(),
{
    if v.len() > 0 && v[0] != '"' {
        if v[0] == '\\' {
            if v.len() >= 2 && (v[1] == '"' || v[1] == '\\') {
                lemma_sp_str_body_consumes(v.skip(2));
            }
        } else {
            lemma_sp_str_body_consumes(v.drop_first());
        }
    }
}

/// A parsed string leaves a strictly shorter rest.
proof fn lemma_sp_string_consumes(v: Seq<char>)
    ensures
        sp_string(v) matches Some((s, r)) ==> r.len() < v.len(),
{
    if v.len() > 0 && v[0] == '"' {
        lemma_sp_str_body_consumes(v.drop_first());
    }
}

/// Folding digits never lengthens the input.
proof fn lemma_munch_consumes(v: Seq<char>, acc: nat)
    ensures
        munch_digits(v, acc).1.len() <= v.len(),
    decreases v.len(),
{
    if v.len() > 0 && is_digit(v[0]) {
        lemma_munch_consumes(v.drop_first(), acc * 10 + digit_val(v[0]));
    }
}

/// A parsed number leaves a strictly shorter rest.
proof fn lemma_sp_number_consumes(v: Seq<char>)
    ensures
        sp_number(v) matches Some((n, r)) ==> r.len() < v.len(),
{
    if v.len() > 0 && is_digit(v[0]) {
        lemma_munch_consumes(v.drop_first(), digit_val(v[0]));
    }
}

/// Consumes the elements of a string array after its first element: either
/// the closing bracket, or a comma and a further string.
pub open spec fn sp_strings_tail(v: Seq<char>) -> Option<(Seq<Seq<char>>, Seq<char>)>
    decreases v.len(),
    via sp_strings_tail_dec
{
    if v.len() > 0 && v[0] == ']' {
        Some((Seq::empty(), v.drop_first()))
    } else if v.len() > 0 && v[0] == ',' {
        match sp_string(v.drop_first()) {
            None => None,
            Some((s, r)) => match sp_strings_tail(r) {
                None => None,
                Some((l, r2)) => Some((seq![s] + l, r2)),
            },
        }
    } else {
        None
    }
}

#[via_fn]
proof fn sp_strings_tail_dec(v: Seq<char>) {
    if v.len() > 0 && v[0] != ']' && v[0] == ',' {
        lemma_sp_string_consumes(v.drop_first());
    }
}

/// Consumes a JSON array of strings.
pub open spec fn sp_strings(v: Seq<char>) -> Option<(Seq<Seq<char>>, Seq<char>)> {
    if v.len() >= 2 && v[0] == '[' && v[1] == ']' {
        Some((Seq::empty(), v.skip(2)))
    } else if v.len() > 0 && v[0] == '[' {
        match sp_string(v.drop_first()) {
            None => None,
            Some((s, r)) => match sp_strings_tail(r) {
                None => None,
                Some((l, r2)) => Some((seq![s] + l, r2)),
            },
        }
    } else {
        None
    }
}

/// A parsed string array leaves a shorter rest.
proof fn lemma_sp_strings_tail_consumes(v: Seq<char>)
    ensures
        sp_strings_tail(v) matches Some((l, r)) ==> r.len() < v.len(),
    decreases v.len(),
{
    if v.len() > 0 && v[0] != ']' && v[0] == ',' {
        lemma_sp_string_consumes(v.drop_first());
        if let Some((s, r)) = sp_string(v.drop_first()) {
            lemma_sp_strings_tail_consumes(r);
        }
    }
}

/// A parsed string array leaves a shorter rest.
proof fn lemma_sp_strings_consumes(v: Seq<char>)
    ensures
        sp_strings(v) matches Some((l, r)) ==> r.len() < v.len(),
{
    if !(v.len() >= 2 && v[0] == '[' && v[1] == ']') && v.len() > 0 && v[0] == '[' {
        lemma_sp_string_consumes(v.drop_first());
        if let Some((s, r)) = sp_string(v.drop_first()) {
            lemma_sp_strings_tail_consumes(r);
        }
    }
}

/// The string-array encoding after its first element.
pub open spec fn enc_strings_tail(l: Seq<Seq<char>>) -> Seq<char>
    decreases l.len(),
{
    if l.len() == 0 {
        seq![']']
    } else {
        seq![','] + enc_str(l[0]) + enc_strings_tail(l.drop_first())
    }
}

/// A JSON array of strings.
pub open spec fn enc_strings(l: Seq<Seq<char>>) -> Seq<char> {
    if l.len() == 0 {
        seq!['[', ']']
    } else {
        seq!['['] + enc_str(l[0]) + enc_strings_tail(l.drop_first())
    }
}

/// The array-tail parser undoes the array-tail encoder.
proof fn lemma_strings_tail_round_trip(l: Seq<Seq<char>>, rest: Seq<char>)
    ensures
        sp_strings_tail(enc_strings_tail(l) + rest) == Some((l, rest)),
    decreases l.len(),
{
    let v = enc_strings_tail(l) + rest;
    if l.len() == 0 {
        assert(v[0] == ']');
        assert(v.drop_first() =~= rest);
        assert(Seq::<Seq<char>>::empty() =~= l);
    } else {
        assert(v[0] == ',');
        let tail_rest = enc_strings_tail(l.drop_first()) + rest;
        assert(v.drop_first() =~= enc_str(l[0]) + tail_rest);
        lemma_string_round_trip(l[0], tail_rest);
        lemma_strings_tail_round_trip(l.drop_first(), rest);
        assert(seq![l[0]] + l.drop_first() =~= l);
    }
}

/// The array parser undoes the array encoder.
pub proof fn lemma_strings_round_trip(l: Seq<Seq<char>>, rest: Seq<char>)
    ensures
        sp_strings(enc_strings(l) + rest) == Some((l, rest)),
{
    let v = enc_strings(l) + rest;
    if l.len() == 0 {
        assert(v[0] == '[' && v[1] == ']');
        assert(v.skip(2) =~= rest);
        assert(Seq::<Seq<char>>::empty() =~= l);
    } else {
        assert(v[0] == '[');
        assert(enc_str(l[0])[0] == '"');
        assert(v[1] == '"');
        let tail_rest = enc_strings_tail(l.drop_first()) + rest;
        assert(v.drop_first() =~= enc_str(l[0]) + tail_rest);
        lemma_string_round_trip(l[0], tail_rest);
        lemma_strings_tail_round_trip(l.drop_first(), rest);
        assert(seq![l[0]] + l.drop_first() =~= l);
    }
}

/// Closes a record object.
pub open spec fn sp_record_close(v: Seq<char>, base: JailInfoV) -> Option<(JailInfoV, Seq<char>)> {
    match sp_lit(v, "}"@) {
        None => None,
        Some(r) => Some((base, r)),
    }
}

/// Consumes the optional entrypoint field, then the record's closing brace.
pub open spec fn sp_record_ep(v: Seq<char>, base: JailInfoV) -> Option<(JailInfoV, Seq<char>)> {
    match sp_lit(v, ",\"entrypoint\":"@) {
        Some(ve) => match sp_strings(ve) {
            None => None,
            Some((l, vr)) => sp_record_close(vr, JailInfoV { entrypoint: Some(l), ..base }),
        },
        None => sp_record_close(v, base),
    }
}

/// Consumes the optional pid field and whatever follows it.
pub open spec fn sp_record_opts(v: Seq<char>, base: JailInfoV) -> Option<(JailInfoV, Seq<char>)> {
    match sp_lit(v, ",\"pid\":"@) {
        Some(vp) => match sp_number(vp) {
            None => None,
            Some((p, vq)) => if p > u32::MAX {
                None
            } else {
                sp_record_ep(vq, JailInfoV { pid: Some(p as u32), ..base })
            },
        },
        None => sp_record_ep(v, base),
    }
}

/// Consumes one jail record object, fields in their fixed order.
pub open spec fn sp_record(v: Seq<char>) -> Option<(JailInfoV, Seq<char>)> {
    match sp_lit(v, "{\"id\":"@) {
        None => None,
        Some(v1) => match sp_string(v1) {
            None => None,
            Some((id, v2)) => match sp_lit(v2, ",\"name\":"@) {
                None => None,
                Some(v3) => match sp_string(v3) {
                    None => None,
                    Some((name, v4)) => match sp_lit(v4, ",\"repo_path\":"@) {
                        None => None,
                        Some(v5) => match sp_string(v5) {
                            None => None,
                            Some((repo, v6)) => match sp_lit(v6, ",\"worktree_path\":"@) {
                                None => None,
                                Some(v7) => match sp_string(v7) {
                                    None => None,
                                    Some((wt, v8)) => match sp_lit(v8, ",\"branch_name\":"@) {
                                        None => None,
                                        Some(v9) => match sp_string(v9) {
                                            None => None,
                                            Some((br, v10)) => match sp_lit(
                                                v10,
                                                ",\"created_at\":"@,
                                            ) {
                                                None => None,
                                                Some(v11) => match sp_number(v11) {
                                                    None => None,
                                                    Some((ca, v12)) => if ca > u64::MAX {
                                                        None
                                                    } else {
                                                        sp_record_opts(
                                                            v12,
                                                            JailInfoV {
                                                                id: id,
                                                                name: name,
                                                                repo_path: repo,
                                                                worktree_path: wt,
                                                                branch_name: br,
                                                                created_at: ca as u64,
                                                                pid: None,
                                                                entrypoint: None,
                                                            },
                                                        )
                                                    },
                                                },
                                            },
                                        },
                                    },
                                },
                            },
                        },
                    },
                },
            },
        },
    }
}

/// The optional sections of a record's encoding, pid then entrypoint.
pub open spec fn enc_record_opts(r: JailInfoV) -> Seq<char> {
    (match r.pid {
        None => Seq::<char>::empty(),
        Some(p) => ",\"pid\":"@ + dec_nat(p as nat),
    }) + (match r.entrypoint {
        None => Seq::<char>::empty(),
        Some(l) => ",\"entrypoint\":"@ + enc_strings(l),
    }) + "}"@
}

/// One jail record object.
pub open spec fn enc_record(r: JailInfoV) -> Seq<char> {
    "{\"id\":"@ + enc_str(r.id) + ",\"name\":"@ + enc_str(r.name) + ",\"repo_path\":"@ + enc_str(
        r.repo_path,
    ) + ",\"worktree_path\":"@ + enc_str(r.worktree_path) + ",\"branch_name\":"@ + enc_str(
        r.branch_name,
    ) + ",\"created_at\":"@ + dec_nat(r.created_at as nat) + enc_record_opts(r)
}

/// The first character of a comma or brace never opens a number.
proof fn lemma_opts_head(r: JailInfoV, rest: Seq<char>)
    ensures
        (enc_record_opts(r) + rest).len() > 0,
        (enc_record_opts(r) + rest)[0] == ',' || (enc_record_opts(r) + rest)[0] == '}',
{
    reveal_strlit(",\"pid\":");
    reveal_strlit(",\"entrypoint\":");
    reveal_strlit("}");
    let t = enc_record_opts(r) + rest;
    match r.pid {
        Some(p) => {
            assert(t[0] == ',');
        },
        None => {
            match r.entrypoint {
                Some(l) => {
                    assert(t[0] == ',');
                },
                None => {
                    assert(t[0] == '}');
                },
            }
        },
    }
}

/// The record parser undoes the record encoder, whatever follows.
#[verifier::rlimit(100)]
#[verifier::spinoff_prover]
pub proof fn lemma_record_round_trip(r: JailInfoV, rest: Seq<char>)
    ensures
        sp_record(enc_record(r) + rest) == Some((r, rest)),
{
    let t_close = "}"@ + rest;
    let t_ep = (match r.entrypoint {
        None => Seq::<char>::empty(),
        Some(l) => ",\"entrypoint\":"@ + enc_strings(l),
    }) + t_close;
    let t_pid = (match r.pid {
        None => Seq::<char>::empty(),
        Some(p) => ",\"pid\":"@ + dec_nat(p as nat),
    }) + t_ep;
    let t_ca = dec_nat(r.created_at as nat) + t_pid;
    let t_br = enc_str(r.branch_name) + ",\"created_at\":"@ + t_ca;
    let t_wt = enc_str(r.worktree_path) + ",\"branch_name\":"@ + t_br;
    let t_repo = enc_str(r.repo_path) + ",\"worktree_path\":"@ + t_wt;
    let t_name = enc_str(r.name) + ",\"repo_path\":"@ + t_repo;
    let t_id = enc_str(r.id) + ",\"name\":"@ + t_name;
    let v = enc_record(r) + rest;
    assert(enc_record_opts(r) + rest =~= t_pid);
    assert(v =~= "{\"id\":"@ + t_id);
    lemma_lit_round_trip("{\"id\":"@, t_id);
    assert(t_id =~= enc_str(r.id) + (",\"name\":"@ + t_name));
    lemma_string_round_trip(r.id, ",\"name\":"@ + t_name);
    lemma_lit_round_trip(",\"name\":"@, t_name);
    assert(t_name =~= enc_str(r.name) + (",\"repo_path\":"@ + t_repo));
    lemma_string_round_trip(r.name, ",\"repo_path\":"@ + t_repo);
    lemma_lit_round_trip(",\"repo_path\":"@, t_repo);
    assert(t_repo =~= enc_str(r.repo_path) + (",\"worktree_path\":"@ + t_wt));
    lemma_string_round_trip(r.repo_path, ",\"worktree_path\":"@ + t_wt);
    lemma_lit_round_trip(",\"worktree_path\":"@, t_wt);
    assert(t_wt =~= enc_str(r.worktree_path) + (",\"branch_name\":"@ + t_br));
    lemma_string_round_trip(r.worktree_path, ",\"branch_name\":"@ + t_br);
    lemma_lit_round_trip(",\"branch_name\":"@, t_br);
    assert(t_br =~= enc_str(r.branch_name) + (",\"created_at\":"@ + t_ca));
    lemma_string_round_trip(r.branch_name, ",\"created_at\":"@ + t_ca);
    lemma_lit_round_trip(",\"created_at\":"@, t_ca);
    lemma_opts_head(r, rest);
    assert(t_pid.len() == 0 || !is_digit(t_pid[0]));
    lemma_number_round_trip(r.created_at, t_pid);
    let base0 = JailInfoV {
        id: r.id,
        name: r.name,
        repo_path: r.repo_path,
        worktree_path: r.worktree_path,
        branch_name: r.branch_name,
        created_at: r.created_at,
        pid: None,
        entrypoint: None,
    };
    assert(sp_record(v) == sp_record_opts(t_pid, base0));
    lemma_record_opts_round_trip(r, rest, base0);
}

/// The optional-field parsers undo the optional-field encoder.
proof fn lemma_record_opts_round_trip(r: JailInfoV, rest: Seq<char>, base0: JailInfoV)
    requires
        base0 == (JailInfoV { pid: None, entrypoint: None, ..r }),
    ensures
        sp_record_opts(
            (match r.pid {
                None => Seq::<char>::empty(),
                Some(p) => ",\"pid\":"@ + dec_nat(p as nat),
            }) + (match r.entrypoint {
                None => Seq::<char>::empty(),
                Some(l) => ",\"entrypoint\":"@ + enc_strings(l),
            }) + "}"@ + rest,
            base0,
        ) == Some((r, rest)),
{
    reveal_strlit(",\"pid\":");
    reveal_strlit(",\"entrypoint\":");
    reveal_strlit("}");
    let t_close = "}"@ + rest;
    let t_ep = (match r.entrypoint {
        None => Seq::<char>::empty(),
        Some(l) => ",\"entrypoint\":"@ + enc_strings(l),
    }) + t_close;
    let t_pid = (match r.pid {
        None => Seq::<char>::empty(),
        Some(p) => ",\"pid\":"@ + dec_nat(p as nat),
    }) + t_ep;
    assert((match r.pid {
        None => Seq::<char>::empty(),
        Some(p) => ",\"pid\":"@ + dec_nat(p as nat),
    }) + (match r.entrypoint {
        None => Seq::<char>::empty(),
        Some(l) => ",\"entrypoint\":"@ + enc_strings(l),
    }) + "}"@ + rest =~= t_pid);
    let base1 = JailInfoV { pid: r.pid, ..base0 };
    match r.pid {
        Some(p) => {
            assert(t_pid =~= ",\"pid\":"@ + (dec_nat(p as nat) + t_ep));
            lemma_lit_round_trip(",\"pid\":"@, dec_nat(p as nat) + t_ep);
            lemma_ep_head(r, rest);
            lemma_number_round_trip(p as u64, t_ep);
            assert(sp_record_opts(t_pid, base0) == sp_record_ep(t_ep, base1));
        },
        None => {
            assert(t_pid =~= t_ep);
            assert(sp_lit(t_ep, ",\"pid\":"@) is None) by {
                if (",\"pid\":"@).is_prefix_of(t_ep) {
                    match r.entrypoint {
                        Some(l) => {
                            assert(t_ep[2] == 'e');
                            assert(t_ep[2] == 'p');
                        },
                        None => {
                            assert(t_ep[0] == '}');
                            assert(t_ep[0] == ',');
                        },
                    }
                }
            }
            assert(base1 =~= base0);
            assert(sp_record_opts(t_pid, base0) == sp_record_ep(t_ep, base0));
        },
    }
    let base2 = JailInfoV { entrypoint: r.entrypoint, ..base1 };
    assert(base2 =~= r);
    match r.entrypoint {
        Some(l) => {
            assert(t_ep =~= ",\"entrypoint\":"@ + (enc_strings(l) + t_close));
            lemma_lit_round_trip(",\"entrypoint\":"@, enc_strings(l) + t_close);
            lemma_strings_round_trip(l, t_close);
            assert(sp_record_ep(t_ep, base1) == sp_record_close(t_close, base2));
        },
        None => {
            assert(t_ep =~= t_close);
            assert(sp_lit(t_close, ",\"entrypoint\":"@) is None) by {
                if (",\"entrypoint\":"@).is_prefix_of(t_close) {
                    assert(t_close[0] == '}');
                    assert(t_close[0] == ',');
                }
            }
            assert(sp_record_ep(t_ep, base1) == sp_record_close(t_close, base2));
        },
    }
    lemma_lit_round_trip("}"@, rest);
    assert(sp_record_close(t_close, base2) == Some((base2, rest)));
    assert(base2 == r);
}

/// What follows the pid's digits opens with a comma or a brace.
proof fn lemma_ep_head(r: JailInfoV, rest: Seq<char>)
    ensures
        ((match r.entrypoint {
            None => Seq::<char>::empty(),
            Some(l) => ",\"entrypoint\":"@ + enc_strings(l),
        }) + "}"@ + rest).len() == 0 || !is_digit(
            ((match r.entrypoint {
                None => Seq::<char>::empty(),
                Some(l) => ",\"entrypoint\":"@ + enc_strings(l),
            }) + "}"@ + rest)[0],
        ),
{
    reveal_strlit(",\"entrypoint\":");
    reveal_strlit("}");
    let t = (match r.entrypoint {
        None => Seq::<char>::empty(),
        Some(l) => ",\"entrypoint\":"@ + enc_strings(l),
    }) + "}"@ + rest;
    match r.entrypoint {
        Some(l) => {
            assert(t[0] == ',');
        },
        None => {
            assert(t[0] == '}');
        },
    }
}

/// A closed record parse leaves no more than it was given.
proof fn lemma_sp_record_close_consumes(v: Seq<char>, b: JailInfoV)
    ensures
        sp_record_close(v, b) matches Some((x, r)) ==> r.len() <= v.len(),
{
}

/// An entrypoint-section parse leaves no more than it was given.
proof fn lemma_sp_record_ep_consumes(v: Seq<char>, b: JailInfoV)
    ensures
        sp_record_ep(v, b) matches Some((x, r)) ==> r.len() <= v.len(),
{
    match sp_lit(v, ",\"entrypoint\":"@) {
        Some(ve) => {
            lemma_sp_strings_consumes(ve);
            if let Some((l, vr)) = sp_strings(ve) {
                lemma_sp_record_close_consumes(vr, JailInfoV { entrypoint: Some(l), ..b });
            }
        },
        None => {
            lemma_sp_record_close_consumes(v, b);
        },
    }
}

/// A pid-section parse leaves no more than it was given.
proof fn lemma_sp_record_opts_consumes(v: Seq<char>, b: JailInfoV)
    ensures
        sp_record_opts(v, b) matches Some((x, r)) ==> r.len() <= v.len(),
{
    match sp_lit(v, ",\"pid\":"@) {
        Some(vp) => {
            lemma_sp_number_consumes(vp);
            if let Some((p, vq)) = sp_number(vp) {
                if p <= u32::MAX {
                    lemma_sp_record_ep_consumes(vq, JailInfoV { pid: Some(p as u32), ..b });
                }
            }
        },
        None => {
            lemma_sp_record_ep_consumes(v, b);
        },
    }
}

/// A record parse leaves a strictly shorter rest.
proof fn lemma_sp_record_consumes(v: Seq<char>)
    ensures
        sp_record(v) matches Some((x, r)) ==> r.len() < v.len(),
{
    if let Some(v1) = sp_lit(v, "{\"id\":"@) {
        lemma_sp_string_consumes(v1);
        if let Some((id, v2)) = sp_string(v1) {
            if let Some(v3) = sp_lit(v2, ",\"name\":"@) {
                lemma_sp_string_consumes(v3);
                if let Some((name, v4)) = sp_string(v3) {
                    if let Some(v5) = sp_lit(v4, ",\"repo_path\":"@) {
                        lemma_sp_string_consumes(v5);
                        if let Some((repo, v6)) = sp_string(v5) {
                            if let Some(v7) = sp_lit(v6, ",\"worktree_path\":"@) {
                                lemma_sp_string_consumes(v7);
                                if let Some((wt, v8)) = sp_string(v7) {
                                    if let Some(v9) = sp_lit(v8, ",\"branch_name\":"@) {
                                        lemma_sp_string_consumes(v9);
                                        if let Some((br, v10)) = sp_string(v9) {
                                            if let Some(v11) = sp_lit(v10, ",\"created_at\":"@) {
                                                lemma_sp_number_consumes(v11);
                                                if let Some((ca, v12)) = sp_number(v11) {
                                                    if ca <= u64::MAX {
                                                        let base = JailInfoV {
                                                            id: id,
                                                            name: name,
                                                            repo_path: repo,
                                                            worktree_path: wt,
                                                            branch_name: br,
                                                            created_at: ca as u64,
                                                            pid: None,
                                                            entrypoint: None,
                                                        };
                                                        lemma_sp_record_opts_consumes(v12, base);
                                                    }
                                                }
                                            }
                                        }
                                    }
                                }
                            }
                        }
                    }
                }
            }
        }
    }
}

/// Consumes one map entry: a name key, a colon, and a record; the key is
/// redundant with the record's own name and is dropped.
pub open spec fn sp_entry(v: Seq<char>) -> Option<(JailInfoV, Seq<char>)> {
    match sp_string(v) {
        None => None,
        Some((key, v1)) => if v1.len() > 0 && v1[0] == ':' {
            sp_record(v1.drop_first())
        } else {
            None
        },
    }
}

/// An entry parse leaves a strictly shorter rest.
proof fn lemma_sp_entry_consumes(v: Seq<char>)
    ensures
        sp_entry(v) matches Some((x, r)) ==> r.len() < v.len(),
{
    lemma_sp_string_consumes(v);
    if let Some((key, v1)) = sp_string(v) {
        if v1.len() > 0 && v1[0] == ':' {
            lemma_sp_record_consumes(v1.drop_first());
        }
    }
}

/// One map entry: the record's name as the key, then the record.
pub open spec fn enc_entry(r: JailInfoV) -> Seq<char> {
    enc_str(r.name) + seq![':'] + enc_record(r)
}

/// The entry parser undoes the entry encoder, whatever follows.
proof fn lemma_entry_round_trip(r: JailInfoV, rest: Seq<char>)
    ensures
        sp_entry(enc_entry(r) + rest) == Some((r, rest)),
{
    let v = enc_entry(r) + rest;
    let after = seq![':'] + (enc_record(r) + rest);
    assert(v =~= enc_str(r.name) + after);
    lemma_string_round_trip(r.name, after);
    assert(after[0] == ':');
    assert(after.drop_first() =~= enc_record(r) + rest);
    lemma_record_round_trip(r, rest);
}

/// Consumes the entries of the jails map after its first entry.
pub open spec fn sp_jails_tail(v: Seq<char>) -> Option<(Seq<JailInfoV>, Seq<char>)>
    decreases v.len(),
    via sp_jails_tail_dec
{
    if v.len() > 0 && v[0] == '}' {
        Some((Seq::empty(), v.drop_first()))
    } else if v.len() > 0 && v[0] == ',' {
        match sp_entry(v.drop_first()) {
            None => None,
            Some((r0, v1)) => match sp_jails_tail(v1) {
                None => None,
                Some((l, v2)) => Some((seq![r0] + l, v2)),
            },
        }
    } else {
        None
    }
}

#[via_fn]
proof fn sp_jails_tail_dec(v: Seq<char>) {
    if v.len() > 0 && v[0] != '}' && v[0] == ',' {
        lemma_sp_entry_consumes(v.drop_first());
    }
}

/// Consumes the jails map object.
pub open spec fn sp_jails(v: Seq<char>) -> Option<(Seq<JailInfoV>, Seq<char>)> {
    if v.len() >= 2 && v[0] == '{' && v[1] == '}' {
        Some((Seq::empty(), v.skip(2)))
    } else if v.len() > 0 && v[0] == '{' {
        match sp_entry(v.drop_first()) {
            None => None,
            Some((r0, v1)) => match sp_jails_tail(v1) {
                None => None,
                Some((l, v2)) => Some((seq![r0] + l, v2)),
            },
        }
    } else {
        None
    }
}

/// The jails-map encoding after its first entry.
pub open spec fn enc_jails_tail(l: Seq<JailInfoV>) -> Seq<char>
    decreases l.len(),
{
    if l.len() == 0 {
        seq!['}']
    } else {
        seq![','] + enc_entry(l[0]) + enc_jails_tail(l.drop_first())
    }
}

/// The jails map object.
pub open spec fn enc_jails(l: Seq<JailInfoV>) -> Seq<char> {
    if l.len() == 0 {
        seq!['{', '}']
    } else {
        seq!['{'] + enc_entry(l[0]) + enc_jails_tail(l.drop_first())
    }
}

/// The map-tail parser undoes the map-tail encoder.
#[verifier::rlimit(60)]
proof fn lemma_jails_tail_round_trip(l: Seq<JailInfoV>, rest: Seq<char>)
    ensures
        sp_jails_tail(enc_jails_tail(l) + rest) == Some((l, rest)),
    decreases l.len(),
{
    let v = enc_jails_tail(l) + rest;
    if l.len() == 0 {
        assert(v[0] == '}');
        assert(v.drop_first() =~= rest);
        assert(Seq::<JailInfoV>::empty() =~= l);
    } else {
        assert(v[0] == ',');
        let tail_rest = enc_jails_tail(l.drop_first()) + rest;
        assert(v.drop_first() =~= enc_entry(l[0]) + tail_rest);
        lemma_entry_round_trip(l[0], tail_rest);
        lemma_jails_tail_round_trip(l.drop_first(), rest);
        assert(seq![l[0]] + l.drop_first() =~= l);
    }
}

/// The map parser undoes the map encoder, whatever follows.
#[verifier::rlimit(60)]
proof fn lemma_jails_round_trip(l: Seq<JailInfoV>, rest: Seq<char>)
    ensures
        sp_jails(enc_jails(l) + rest) == Some((l, rest)),
{
    let v = enc_jails(l) + rest;
    if l.len() == 0 {
        assert(v[0] == '{' && v[1] == '}');
        assert(v.skip(2) =~= rest);
        assert(Seq::<JailInfoV>::empty() =~= l);
    } else {
        assert(v[0] == '{');
        assert(enc_entry(l[0])[0] == '"');
        assert(v[1] == '"');
        let tail_rest = enc_jails_tail(l.drop_first()) + rest;
        assert(v.drop_first() =~= enc_entry(l[0]) + tail_rest);
        lemma_entry_round_trip(l[0], tail_rest);
        lemma_jails_tail_round_trip(l.drop_first(), rest);
        assert(seq![l[0]] + l.drop_first() =~= l);
    }
}

/// The whole registry document.
pub open spec fn enc_state(l: Seq<JailInfoV>) -> Seq<char> {
    "{\"jails\":"@ + enc_jails(l) + "}"@
}

/// Consumes the whole registry document; nothing may follow it.
pub open spec fn sp_state(v: Seq<char>) -> Option<Seq<JailInfoV>> {
    match sp_lit(v, "{\"jails\":"@) {
        None => None,
        Some(v1) => match sp_jails(v1) {
            None => None,
            Some((l, v2)) => match sp_lit(v2, "}"@) {
                None => None,
                Some(r) => if r.len() == 0 {
                    Some(l)
                } else {
                    None
                },
            },
        },
    }
}

/// The document parser undoes the document encoder: every record of the
/// registry, every field of each record, the optional pid and entrypoint
/// included, comes back exactly. In particular, whatever mutation produced
/// the registry, the document written for it reads back as precisely the
/// post-mutation registry.
pub proof fn lemma_state_round_trip(l: Seq<JailInfoV>)
    ensures
        sp_state(enc_state(l)) == Some(l),
{
    let v = enc_state(l);
    let t1 = enc_jails(l) + "}"@;
    assert(v =~= "{\"jails\":"@ + t1);
    lemma_lit_round_trip("{\"jails\":"@, t1);
    lemma_jails_round_trip(l, "}"@);
    lemma_lit_round_trip("}"@, Seq::<char>::empty());
    assert("}"@ + Seq::<char>::empty() =~= "}"@);
}

/// Appends the characters of `lit` to `out`.
pub fn emit_lit(out: &mut Vec<char>, lit: &str)
    ensures
        final(out)@ == old(out)@ + lit@,
{
    let mut v = str_to_chars(lit);
    out.append(&mut v);
}

/// Appends the JSON encoding of the string `s` to `out`.
pub fn emit_string(out: &mut Vec<char>, s: &str)
    ensures
        final(out)@ == old(out)@ + enc_str(s@),
{
    let chars = str_to_chars(s);
    out.push('"');
    let ghost base = out@;
    let mut i: usize = 0;
    while i < chars.len()
        invariant
            i <= chars@.len(),
            chars@ == s@,
            out@ == base + esc(s@.subrange(0, i as int)),
        decreases chars@.len() - i,
    {
        let c = chars[i];
        if c == '"' || c == '\\' {
            out.push('\\');
            out.push(c);
        } else {
            out.push(c);
        }
        proof {
            lemma_esc_snoc(s@.subrange(0, i as int), s@[i as int]);
            assert(s@.subrange(0, i + 1 as int) =~= s@.subrange(0, i as int).push(s@[i as int]));
            assert(out@ =~= base + esc(s@.subrange(0, i + 1 as int)));
        }
        i = i + 1;
    }
    proof {
        assert(s@.subrange(0, s@.len() as int) =~= s@);
    }
    out.push('"');
    proof {
        assert(final(out)@ =~= old(out)@ + enc_str(s@));
    }
}

/// Parses a quoted string starting at position `i`; on success yields its
/// contents and the position just past the closing quote.
pub fn parse_string(v: &Vec<char>, i: usize) -> (r: Option<(String, usize)>)
    requires
        i <= v@.len(),
    ensures
        match r {
            None => sp_string(v@.skip(i as int)) is None,
            Some((s, j)) => i < j <= v@.len() && sp_string(v@.skip(i as int)) == Some(
                (s@, v@.skip(j as int)),
            ),
        },
{
    if i >= v.len() || v[i] != '"' {
        return None;
    }
    let mut acc: Vec<char> = Vec::new();
    let mut k: usize = i + 1;
    proof {
        assert(v@.skip(i as int)[0] == '"');
        assert(v@.skip(i as int).drop_first() =~= v@.skip(k as int));
    }
    loop
        invariant
            i < k <= v@.len(),
            sp_string(v@.skip(i as int)) == match sp_str_body(v@.skip(k as int)) {
                None => None::<(Seq<char>, Seq<char>)>,
                Some((s, r)) => Some((acc@ + s, r)),
            },
        decreases v@.len() - k,
    {
        if k >= v.len() {
            proof {
                assert(v@.skip(k as int) =~= Seq::<char>::empty());
            }
            return None;
        }
        let c = v[k];
        proof {
            assert(v@.skip(k as int)[0] == c);
        }
        if c == '"' {
            proof {
                assert(v@.skip(k as int).drop_first() =~= v@.skip(k + 1 as int));
                assert(acc@ + Seq::<char>::empty() =~= acc@);
            }
            let s = chars_to_string(&acc);
            return Some((s, k + 1));
        } else if c == '\\' {
            if k + 1 >= v.len() {
                proof {
                    assert(v@.skip(k as int).len() < 2);
                }
                return None;
            }
            let e = v[k + 1];
            proof {
                assert(v@.skip(k as int)[1] == e);
            }
            if e == '"' || e == '\\' {
                let ghost acc_pre = acc@;
                acc.push(e);
                proof {
                    assert(v@.skip(k as int).skip(2) =~= v@.skip(k + 2 as int));
                    assert forall|s: Seq<char>| true implies acc_pre + (seq![e] + s) == acc@
                        + s by {
                        assert(acc_pre + (seq![e] + s) =~= acc@ + s);
                    }
                }
                k = k + 2;
            } else {
                return None;
            }
        } else {
            let ghost acc_pre = acc@;
            acc.push(c);
            proof {
                assert(v@.skip(k as int).drop_first() =~= v@.skip(k + 1 as int));
                assert forall|s: Seq<char>| true implies acc_pre + (seq![c] + s) == acc@ + s by {
                    assert(acc_pre + (seq![c] + s) =~= acc@ + s);
                }
            }
            k = k + 1;
        }
    }
}

/// Appends the JSON encoding of a string array to `out`.
pub fn emit_strings(out: &mut Vec<char>, v: &Vec<String>)
    ensures
        final(out)@ == old(out)@ + enc_strings(v.deep_view()),
{
    let ghost l = v.deep_view();
    let ghost base = out@;
    if v.len() == 0 {
        out.push('[');
        out.push(']');
        proof {
            assert(out@ =~= base + enc_strings(l));
        }
        return ;
    }
    out.push('[');
    emit_string(out, v[0].as_str());
    proof {
        assert(l[0] == v@[0]@);
        assert(l.drop_first() =~= l.skip(1));
        assert(out@ + enc_strings_tail(l.skip(1)) =~= base + enc_strings(l));
    }
    let mut i: usize = 1;
    while i < v.len()
        invariant
            1 <= i <= v@.len(),
            l == v.deep_view(),
            l.len() == v@.len(),
            out@ + enc_strings_tail(l.skip(i as int)) == base + enc_strings(l),
        decreases v@.len() - i,
    {
        out.push(',');
        emit_string(out, v[i].as_str());
        proof {
            assert(l.skip(i as int)[0] == l[i as int]);
            assert(l[i as int] == v@[i as int]@);
            assert(l.skip(i as int).drop_first() =~= l.skip(i + 1));
            assert(out@ + enc_strings_tail(l.skip(i + 1)) =~= base + enc_strings(l));
        }
        i = i + 1;
    }
    out.push(']');
    proof {
        assert(l.skip(l.len() as int) =~= Seq::<Seq<char>>::empty());
        assert(enc_strings_tail(l.skip(l.len() as int)) == seq![']']);
        assert(out@ =~= base + enc_strings(l));
    }
}

/// Appends the JSON encoding of one jail record to `out`.
#[verifier::rlimit(60)]
pub fn emit_record(out: &mut Vec<char>, r: &JailInfo)
    ensures
        final(out)@ == old(out)@ + enc_record(r@),
{
    let ghost base = out@;
    emit_lit(out, "{\"id\":");
    emit_string(out, r.id.as_str());
    emit_lit(out, ",\"name\":");
    emit_string(out, r.name.as_str());
    emit_lit(out, ",\"repo_path\":");
    emit_string(out, r.repo_path.as_str());
    emit_lit(out, ",\"worktree_path\":");
    emit_string(out, r.worktree_path.as_str());
    emit_lit(out, ",\"branch_name\":");
    emit_string(out, r.branch_name.as_str());
    emit_lit(out, ",\"created_at\":");
    emit_u64(out, r.created_at);
    proof {
        assert(out@ =~= base + ("{\"id\":"@ + enc_str(r@.id) + ",\"name\":"@ + enc_str(r@.name)
            + ",\"repo_path\":"@ + enc_str(r@.repo_path) + ",\"worktree_path\":"@ + enc_str(
            r@.worktree_path,
        ) + ",\"branch_name\":"@ + enc_str(r@.branch_name) + ",\"created_at\":"@ + dec_nat(
            r@.created_at as nat,
        )));
    }
    let ghost mid = out@;
    match &r.pid {
        Some(p) => {
            emit_lit(out, ",\"pid\":");
            emit_u64(out, *p as u64);
        },
        None => {},
    }
    match &r.entrypoint {
        Some(v) => {
            emit_lit(out, ",\"entrypoint\":");
            emit_strings(out, v);
        },
        None => {},
    }
    emit_lit(out, "}");
    proof {
        assert(out@ =~= mid + enc_record_opts(r@));
        assert(out@ =~= base + enc_record(r@));
    }
}

/// Renders the registry as its JSON document.
pub fn encode_state(s: &State) -> (r: String)
    ensures
        r@ == enc_state(s@),
{
    let ghost l = s@;
    let mut out: Vec<char> = Vec::new();
    emit_lit(&mut out, "{\"jails\":");
    let ghost base = out@;
    if s.jails.len() == 0 {
        out.push('{');
        out.push('}');
        proof {
            assert(out@ =~= base + enc_jails(l));
        }
    } else {
        out.push('{');
        emit_string(&mut out, s.jails[0].name.as_str());
        out.push(':');
        emit_record(&mut out, &s.jails[0]);
        proof {
            assert(l[0] == s.jails@[0]@);
            assert(out@ =~= base + seq!['{'] + enc_entry(l[0]));
            assert(l.drop_first() =~= l.skip(1));
            assert(out@ + enc_jails_tail(l.skip(1)) =~= base + enc_jails(l));
        }
        let mut i: usize = 1;
        while i < s.jails.len()
            invariant
                1 <= i <= s.jails@.len(),
                l == s@,
                l.len() == s.jails@.len(),
                out@ + enc_jails_tail(l.skip(i as int)) == base + enc_jails(l),
            decreases s.jails@.len() - i,
        {
            out.push(',');
            emit_string(&mut out, s.jails[i].name.as_str());
            out.push(':');
            emit_record(&mut out, &s.jails[i]);
            proof {
                assert(l.skip(i as int)[0] == l[i as int]);
                assert(l[i as int] == s.jails@[i as int]@);
                assert(l.skip(i as int).drop_first() =~= l.skip(i + 1));
                assert(out@ + enc_jails_tail(l.skip(i + 1)) =~= base + enc_jails(l));
            }
            i = i + 1;
        }
        proof {
            assert(l.skip(l.len() as int) =~= Seq::<JailInfoV>::empty());
            assert(enc_jails_tail(l.skip(l.len() as int)) == seq!['}']);
        }
        out.push('}');
        proof {
            assert(out@ =~= base + enc_jails(l));
        }
    }
    emit_lit(&mut out, "}");
    proof {
        assert(out@ =~= enc_state(l));
    }
    chars_to_string(&out)
}

/// Consumes the exact literal `lit` at position `i`, yielding the position
/// just past it.
pub fn expect_lit(v: &Vec<char>, i: usize, lit: &str) -> (r: Option<usize>)
    requires
        i <= v@.len(),
    ensures
        match r {
            None => sp_lit(v@.skip(i as int), lit@) is None,
            Some(j) => i <= j <= v@.len() && j - i == lit@.len() && sp_lit(
                v@.skip(i as int),
                lit@,
            ) == Some(v@.skip(j as int)),
        },
{
    let n = lit.unicode_len();
    let vl = v.len();
    if n > vl - i {
        proof {
            assert(v@.skip(i as int).len() < lit@.len());
        }
        return None;
    }
    let mut j: usize = 0;
    while j < n
        invariant
            j <= n,
            n == lit@.len(),
            vl == v@.len(),
            i + n <= vl,
            forall|k: int| 0 <= k < j ==> v@[i + k] == lit@[k],
        decreases n - j,
    {
        if v[i + j] != lit.get_char(j) {
            proof {
                assert(!lit@.is_prefix_of(v@.skip(i as int))) by {
                    if lit@.is_prefix_of(v@.skip(i as int)) {
                        assert(lit@[j as int] == v@.skip(i as int).subrange(
                            0,
                            lit@.len() as int,
                        )[j as int]);
                        assert(v@.skip(i as int)[j as int] == v@[i + j]);
                    }
                }
            }
            return None;
        }
        j = j + 1;
    }
    proof {
        assert(lit@ =~= v@.skip(i as int).subrange(0, lit@.len() as int));
        assert(lit@.is_prefix_of(v@.skip(i as int)));
        assert(v@.skip(i as int).skip(lit@.len() as int) =~= v@.skip(i + n));
    }
    Some(i + n)
}

/// Parses a JSON array of strings starting at position `i`.
pub fn parse_strings(v: &Vec<char>, i: usize) -> (r: Option<(Vec<String>, usize)>)
    requires
        i <= v@.len(),
    ensures
        match r {
            None => sp_strings(v@.skip(i as int)) is None,
            Some((ws, j)) => i < j <= v@.len() && sp_strings(v@.skip(i as int)) == Some(
                (ws.deep_view(), v@.skip(j as int)),
            ),
        },
{
    if i >= v.len() || v[i] != '[' {
        proof {
            if i < v@.len() {
                assert(v@.skip(i as int)[0] == v@[i as int]);
            }
        }
        return None;
    }
    proof {
        assert(v@.skip(i as int)[0] == '[');
    }
    if i + 1 < v.len() && v[i + 1] == ']' {
        proof {
            assert(v@.skip(i as int)[1] == ']');
            assert(v@.skip(i as int).skip(2) =~= v@.skip(i + 2));
        }
        let ws: Vec<String> = Vec::new();
        proof {
            assert(ws.deep_view() =~= Seq::<Seq<char>>::empty());
        }
        return Some((ws, i + 2));
    }
    proof {
        if i + 1 < v@.len() {
            assert(v@.skip(i as int)[1] == v@[i + 1]);
        }
        assert(!(v@.skip(i as int).len() >= 2 && v@.skip(i as int)[0] == '[' && v@.skip(
            i as int,
        )[1] == ']'));
        assert(v@.skip(i as int).drop_first() =~= v@.skip(i + 1));
    }
    let first = parse_string(v, i + 1);
    match first {
        None => {
            return None;
        },
        Some((s0, k0)) => {
            let mut acc: Vec<String> = Vec::new();
            acc.push(s0);
            let mut k = k0;
            proof {
                assert(acc.deep_view() =~= seq![sp_string(v@.skip(i + 1)).unwrap().0]);
                assert forall|l: Seq<Seq<char>>, rr: Seq<char>| true implies (Some((
                    seq![sp_string(v@.skip(i + 1)).unwrap().0] + l,
                    rr,
                )) == Some((acc.deep_view() + l, rr))) by {
                    assert(seq![sp_string(v@.skip(i + 1)).unwrap().0] + l =~= acc.deep_view() + l);
                }
            }
            loop
                invariant
                    i < k <= v@.len(),
                    sp_strings(v@.skip(i as int)) == match sp_strings_tail(v@.skip(k as int)) {
                        None => None::<(Seq<Seq<char>>, Seq<char>)>,
                        Some((l, r)) => Some((acc.deep_view() + l, r)),
                    },
                decreases v@.len() - k,
            {
                if k >= v.len() {
                    proof {
                        assert(v@.skip(k as int) =~= Seq::<char>::empty());
                    }
                    return None;
                }
                let c = v[k];
                proof {
                    assert(v@.skip(k as int)[0] == c);
                }
                if c == ']' {
                    proof {
                        assert(v@.skip(k as int).drop_first() =~= v@.skip(k + 1));
                        assert(acc.deep_view() + Seq::<Seq<char>>::empty() =~= acc.deep_view());
                    }
                    return Some((acc, k + 1));
                } else if c == ',' {
                    proof {
                        assert(v@.skip(k as int).drop_first() =~= v@.skip(k + 1));
                    }
                    match parse_string(v, k + 1) {
                        None => {
                            return None;
                        },
                        Some((s, k2)) => {
                            let ghost acc_pre = acc.deep_view();
                            let ghost sv = s@;
                            acc.push(s);
                            proof {
                                assert(acc.deep_view() =~= acc_pre.push(sv));
                                assert forall|l: Seq<Seq<char>>| true implies acc_pre + (seq![sv]
                                    + l) == acc.deep_view() + l by {
                                    assert(acc_pre + (seq![sv] + l) =~= acc.deep_view() + l);
                                }
                            }
                            k = k2;
                        },
                    }
                } else {
                    return None;
                }
            }
        },
    }
}

/// Parses one jail record object starting at position `i`.
#[verifier::rlimit(100)]
#[verifier::spinoff_prover]
pub fn parse_record(v: &Vec<char>, i: usize) -> (r: Option<(JailInfo, usize)>)
    requires
        i <= v@.len(),
    ensures
        match r {
            None => sp_record(v@.skip(i as int)) is None,
            Some((rec, j)) => i < j <= v@.len() && sp_record(v@.skip(i as int)) == Some(
                (rec@, v@.skip(j as int)),
            ),
        },
{
    let j1 = match expect_lit(v, i, "{\"id\":") {
        None => {
            return None;
        },
        Some(j) => j,
    };
    let (id, j2) = match parse_string(v, j1) {
        None => {
            return None;
        },
        Some(x) => x,
    };
    let j3 = match expect_lit(v, j2, ",\"name\":") {
        None => {
            return None;
        },
        Some(j) => j,
    };
    let (name, j4) = match parse_string(v, j3) {
        None => {
            return None;
        },
        Some(x) => x,
    };
    let j5 = match expect_lit(v, j4, ",\"repo_path\":") {
        None => {
            return None;
        },
        Some(j) => j,
    };
    let (repo, j6) = match parse_string(v, j5) {
        None => {
            return None;
        },
        Some(x) => x,
    };
    let j7 = match expect_lit(v, j6, ",\"worktree_path\":") {
        None => {
            return None;
        },
        Some(j) => j,
    };
    let (wt, j8) = match parse_string(v, j7) {
        None => {
            return None;
        },
        Some(x) => x,
    };
    let j9 = match expect_lit(v, j8, ",\"branch_name\":") {
        None => {
            return None;
        },
        Some(j) => j,
    };
    let (br, j10) = match parse_string(v, j9) {
        None => {
            return None;
        },
        Some(x) => x,
    };
    let j11 = match expect_lit(v, j10, ",\"created_at\":") {
        None => {
            return None;
        },
        Some(j) => j,
    };
    let (ca, j12) = match parse_u64(v, j11) {
        None => {
            return None;
        },
        Some(x) => x,
    };
    let (pid, j13) = match expect_lit(v, j12, ",\"pid\":") {
        Some(jp) => {
            match parse_u64(v, jp) {
                None => {
                    return None;
                },
                Some((p, jq)) => {
                    if p > 0xffff_ffff {
                        return None;
                    }
                    (Some(p as u32), jq)
                },
            }
        },
        None => (None, j12),
    };
    let (ep, j14) = match expect_lit(v, j13, ",\"entrypoint\":") {
        Some(je) => {
            match parse_strings(v, je) {
                None => {
                    return None;
                },
                Some((ws, jf)) => (Some(ws), jf),
            }
        },
        None => (None, j13),
    };
    let jz = match expect_lit(v, j14, "}") {
        None => {
            return None;
        },
        Some(j) => j,
    };
    let rec = JailInfo {
        id: id,
        name: name,
        repo_path: repo,
        worktree_path: wt,
        branch_name: br,
        created_at: ca,
        pid: pid,
        entrypoint: ep,
    };
    proof {
        assert(u32::MAX == 0xffff_ffffu32);
        let spec_r = sp_record(v@.skip(i as int));
        assert(spec_r matches Some((sv, srest)) && sv =~= rec@ && srest == v@.skip(jz as int));
    }
    Some((rec, jz))
}

/// Parses one map entry (key, colon, record) starting at position `i`.
pub fn parse_entry(v: &Vec<char>, i: usize) -> (r: Option<(JailInfo, usize)>)
    requires
        i <= v@.len(),
    ensures
        match r {
            None => sp_entry(v@.skip(i as int)) is None,
            Some((rec, j)) => i < j <= v@.len() && sp_entry(v@.skip(i as int)) == Some(
                (rec@, v@.skip(j as int)),
            ),
        },
{
    let (_key, k) = match parse_string(v, i) {
        None => {
            return None;
        },
        Some(x) => x,
    };
    if k >= v.len() || v[k] != ':' {
        proof {
            if k < v@.len() {
                assert(v@.skip(k as int)[0] == v@[k as int]);
            }
        }
        return None;
    }
    proof {
        assert(v@.skip(k as int)[0] == ':');
        assert(v@.skip(k as int).drop_first() =~= v@.skip(k + 1));
    }
    parse_record(v, k + 1)
}

/// Parses the jails map object starting at position `i`.
#[verifier::rlimit(100)]
#[verifier::spinoff_prover]
pub fn parse_jails(v: &Vec<char>, i: usize) -> (r: Option<(Vec<JailInfo>, usize)>)
    requires
        i <= v@.len(),
    ensures
        match r {
            None => sp_jails(v@.skip(i as int)) is None,
            Some((js, j)) => i < j <= v@.len() && sp_jails(v@.skip(i as int)) == Some(
                (js@.map_values(|x: JailInfo| x@), v@.skip(j as int)),
            ),
        },
{
    if i >= v.len() || v[i] != '{' {
        proof {
            if i < v@.len() {
                assert(v@.skip(i as int)[0] == v@[i as int]);
            }
        }
        return None;
    }
    proof {
        assert(v@.skip(i as int)[0] == '{');
    }
    if i + 1 < v.len() && v[i + 1] == '}' {
        proof {
            assert(v@.skip(i as int)[1] == '}');
            assert(v@.skip(i as int).skip(2) =~= v@.skip(i + 2));
        }
        let js: Vec<JailInfo> = Vec::new();
        proof {
            assert(js@.map_values(|x: JailInfo| x@) =~= Seq::<JailInfoV>::empty());
        }
        return Some((js, i + 2));
    }
    proof {
        if i + 1 < v@.len() {
            assert(v@.skip(i as int)[1] == v@[i + 1]);
        }
        assert(!(v@.skip(i as int).len() >= 2 && v@.skip(i as int)[0] == '{' && v@.skip(
            i as int,
        )[1] == '}'));
        assert(v@.skip(i as int).drop_first() =~= v@.skip(i + 1));
    }
    let first = parse_entry(v, i + 1);
    match first {
        None => {
            return None;
        },
        Some((r0, k0)) => {
            let ghost r0v = r0@;
            let mut acc: Vec<JailInfo> = Vec::new();
            acc.push(r0);
            let mut k = k0;
            proof {
                assert(acc@.map_values(|x: JailInfo| x@) =~= seq![r0v]);
                assert forall|l: Seq<JailInfoV>, rr: Seq<char>| true implies (Some((seq![r0v] + l,
                    rr,
                )) == Some((acc@.map_values(|x: JailInfo| x@) + l, rr))) by {
                    assert(seq![r0v] + l =~= acc@.map_values(|x: JailInfo| x@) + l);
                }
            }
            loop
                invariant
                    i < k <= v@.len(),
                    sp_jails(v@.skip(i as int)) == match sp_jails_tail(v@.skip(k as int)) {
                        None => None::<(Seq<JailInfoV>, Seq<char>)>,
                        Some((l, r)) => Some((acc@.map_values(|x: JailInfo| x@) + l, r)),
                    },
                decreases v@.len() - k,
            {
                if k >= v.len() {
                    proof {
                        assert(v@.skip(k as int) =~= Seq::<char>::empty());
                    }
                    return None;
                }
                let c = v[k];
                proof {
                    assert(v@.skip(k as int)[0] == c);
                }
                if c == '}' {
                    proof {
                        assert(v@.skip(k as int).drop_first() =~= v@.skip(k + 1));
                        assert(acc@.map_values(|x: JailInfo| x@) + Seq::<JailInfoV>::empty()
                            =~= acc@.map_values(|x: JailInfo| x@));
                    }
                    return Some((acc, k + 1));
                } else if c == ',' {
                    proof {
                        assert(v@.skip(k as int).drop_first() =~= v@.skip(k + 1));
                    }
                    match parse_entry(v, k + 1) {
                        None => {
                            return None;
                        },
                        Some((rec, k2)) => {
                            let ghost acc_pre = acc@.map_values(|x: JailInfo| x@);
                            let ghost rv = rec@;
                            acc.push(rec);
                            proof {
                                assert(acc@.map_values(|x: JailInfo| x@) =~= acc_pre.push(rv));
                                assert forall|l: Seq<JailInfoV>| true implies acc_pre + (seq![rv]
                                    + l) == acc@.map_values(|x: JailInfo| x@) + l by {
                                    assert(acc_pre + (seq![rv] + l) =~= acc@.map_values(
                                        |x: JailInfo| x@,
                                    ) + l);
                                }
                            }
                            k = k2;
                        },
                    }
                } else {
                    return None;
                }
            }
        },
    }
}

/// Whether all record names are distinct.
pub fn check_unique_names(jails: &Vec<JailInfo>) -> (r: bool)
    ensures
        r == wf_v(jails@.map_values(|x: JailInfo| x@)),
{
    let ghost l = jails@.map_values(|x: JailInfo| x@);
    let mut i: usize = 0;
    while i < jails.len()
        invariant
            i <= jails@.len(),
            l == jails@.map_values(|x: JailInfo| x@),
            l.len() == jails@.len(),
            forall|a: int, b: int| 0 <= a < b < i ==> l[a].name != l[b].name,
        decreases jails@.len() - i,
    {
        let mut j: usize = 0;
        while j < i
            invariant
                j <= i < jails@.len(),
                l == jails@.map_values(|x: JailInfo| x@),
                l.len() == jails@.len(),
                forall|a: int| 0 <= a < j ==> l[a].name != l[i as int].name,
            decreases i - j,
        {
            if crate::strutil::str_eq(jails[j].name.as_str(), jails[i].name.as_str()) {
                proof {
                    assert(l[j as int].name == l[i as int].name);
                    assert(!wf_v(l));
                }
                return false;
            }
            j = j + 1;
        }
        i = i + 1;
    }
    true
}

/// Reads a registry back from its JSON document. A document the grammar
/// refuses, or one naming the same jail twice, is reported as corrupted;
/// every document the encoder produces from a well-formed registry is
/// accepted and yields that registry back.
pub fn parse_state(s: &str) -> (r: Result<State, Error>)
    ensures
        r matches Ok(st) ==> sp_state(s@) == Some(st@) && st.wf(),
        r matches Err(e) ==> e matches Error::StateCorrupted(m) && (sp_state(s@) is None || (
        sp_state(s@) matches Some(l) && !wf_v(l))),
        sp_state(s@) matches Some(l) && wf_v(l) ==> r.is_ok(),
{
    let v = str_to_chars(s);
    proof {
        assert(v@.skip(0) =~= s@);
    }
    let j1 = match expect_lit(&v, 0, "{\"jails\":") {
        None => {
            return Err(Error::StateCorrupted("unrecognized registry document".to_owned()));
        },
        Some(j) => j,
    };
    let (jails, j2) = match parse_jails(&v, j1) {
        None => {
            return Err(Error::StateCorrupted("unrecognized registry document".to_owned()));
        },
        Some(x) => x,
    };
    let j3 = match expect_lit(&v, j2, "}") {
        None => {
            return Err(Error::StateCorrupted("unrecognized registry document".to_owned()));
        },
        Some(j) => j,
    };
    if j3 != v.len() {
        proof {
            assert(v@.skip(j3 as int).len() != 0);
        }
        return Err(Error::StateCorrupted("unrecognized registry document".to_owned()));
    }
    proof {
        assert(v@.skip(j3 as int).len() == 0);
    }
    if !check_unique_names(&jails) {
        return Err(Error::StateCorrupted("duplicate jail name".to_owned()));
    }
    let st = State { jails: jails };
    Ok(st)
}

} // verus!
