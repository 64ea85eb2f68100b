//! What a peer reads of the field lines of a section: writing out a field
//! section that was read (`Header::into_iter`) and reading the lines again
//! (`Header::try_from`) gives the same section.
use vstd::prelude::*;
use crate::proto::headers::{
    spec_add_cookie, spec_append, spec_authority_valid, spec_cookie, spec_field_lines, spec_first_index,
    spec_last_index, spec_line, spec_method_valid, spec_no_pseudo, spec_parse_field, spec_path_and_query_valid, spec_strip_fragment,
    spec_read, spec_read_step, spec_scheme_valid, spec_set_pseudo, spec_status, spec_status_bytes,
    spec_acceptable_field, spec_utf8_valid, spec_name_char, lemma_read_accepts_only_valid, FieldModel,
    HeaderErrorModel, PseudoModel, ReadState,
};
use crate::text::{spec_bytes_match, spec_char_bytes};

verus! {

/// A field line: name and value.
pub type Line = (Seq<u8>, Seq<u8>);

/// Continuing to read the lines `b` from the state `st`.
pub open spec fn spec_read_from(st: ReadState, b: Seq<Line>) -> Result<ReadState, HeaderErrorModel>
    decreases b.len(),
{
    if b.len() == 0 {
        Ok(st)
    } else {
        match spec_read_from(st, b.drop_last()) {
            Err(e) => Err(e),
            Ok(s2) => spec_read_step(s2, b.last()),
        }
    }
}

/// Reading `a + b` is reading `a`, then `b` from where `a` left off.
proof fn lemma_read_concat(a: Seq<Line>, b: Seq<Line>)
    ensures
        spec_read(a + b) == match spec_read(a) {
            Ok(st) => spec_read_from(st, b),
            Err(e) => Err(e),
        },
    decreases b.len(),
{
    if b.len() == 0 {
        assert(a + b =~= a);
    } else {
        assert((a + b).drop_last() =~= a + b.drop_last());
        assert((a + b).last() == b.last());
        lemma_read_concat(a, b.drop_last());
    }
}

/// Reading one line from a state is one step.
proof fn lemma_read_one(st: ReadState, l: Line)
    ensures
        spec_read_from(st, seq![l]) == spec_read_step(st, l),
{
    assert(seq![l].drop_last() =~= Seq::<Line>::empty());
    assert(spec_read_from(st, Seq::<Line>::empty()) == Ok::<ReadState, HeaderErrorModel>(st));
    assert(seq![l].last() == l);
}

/// Bytes written from ASCII characters spell those characters.
proof fn lemma_char_bytes_match(s: Seq<char>)
    requires
        forall|i: int| 0 <= i < s.len() ==> 0 <= (#[trigger] s[i] as int) < 128,
    ensures
        spec_bytes_match(spec_char_bytes(s), s),
        spec_char_bytes(s).len() == s.len(),
{
    let n = spec_char_bytes(s);
    assert forall|i: int| 0 <= i < n.len() implies n[i] as int == s[i] as int by {
        assert(n[i] == s[i] as u8);
    }
}

/// Bytes that spell ASCII characters are the bytes written from them.
proof fn lemma_match_char_bytes(v: Seq<u8>, s: Seq<char>)
    requires
        spec_bytes_match(v, s),
        forall|i: int| 0 <= i < s.len() ==> 0 <= (#[trigger] s[i] as int) < 128,
    ensures
        v == spec_char_bytes(s),
{
    let n = spec_char_bytes(s);
    assert forall|i: int| 0 <= i < n.len() implies n[i] == v[i] by {
        assert(n[i] == s[i] as u8);
        assert(v[i] as int == s[i] as int);
    }
    assert(v =~= n);
}

/// The names of the pseudo-header fields, as bytes, tell apart.
proof fn lemma_pseudo_names()
    ensures
        ({
            let m = spec_char_bytes(":method"@);
            let sc = spec_char_bytes(":scheme"@);
            let a = spec_char_bytes(":authority"@);
            let p = spec_char_bytes(":path"@);
            let st = spec_char_bytes(":status"@);
            let pr = spec_char_bytes(":protocol"@);
            &&& m.len() > 0 && m[0] == 58 && sc.len() > 0 && sc[0] == 58 && a.len() > 0 && a[0] == 58
            &&& p.len() > 0 && p[0] == 58 && st.len() > 0 && st[0] == 58 && pr.len() > 0 && pr[0] == 58
            &&& spec_bytes_match(sc, ":scheme"@)
            &&& !spec_bytes_match(a, ":scheme"@) && spec_bytes_match(a, ":authority"@)
            &&& !spec_bytes_match(p, ":scheme"@) && !spec_bytes_match(p, ":authority"@) && spec_bytes_match(p, ":path"@)
            &&& !spec_bytes_match(m, ":scheme"@) && !spec_bytes_match(m, ":authority"@) && !spec_bytes_match(m, ":path"@)
            &&& spec_bytes_match(m, ":method"@)
            &&& !spec_bytes_match(st, ":scheme"@) && !spec_bytes_match(st, ":authority"@) && !spec_bytes_match(st, ":path"@)
            &&& !spec_bytes_match(st, ":method"@) && spec_bytes_match(st, ":status"@)
            &&& !spec_bytes_match(pr, ":scheme"@) && !spec_bytes_match(pr, ":authority"@) && !spec_bytes_match(pr, ":path"@)
            &&& !spec_bytes_match(pr, ":method"@) && !spec_bytes_match(pr, ":status"@) && spec_bytes_match(pr, ":protocol"@)
        }),
{
    reveal_strlit(":method");
    reveal_strlit(":scheme");
    reveal_strlit(":authority");
    reveal_strlit(":path");
    reveal_strlit(":status");
    reveal_strlit(":protocol");
    let m = spec_char_bytes(":method"@);
    let sc = spec_char_bytes(":scheme"@);
    let a = spec_char_bytes(":authority"@);
    let p = spec_char_bytes(":path"@);
    let st = spec_char_bytes(":status"@);
    let pr = spec_char_bytes(":protocol"@);
    lemma_char_bytes_match(":method"@);
    lemma_char_bytes_match(":scheme"@);
    lemma_char_bytes_match(":authority"@);
    lemma_char_bytes_match(":path"@);
    lemma_char_bytes_match(":status"@);
    lemma_char_bytes_match(":protocol"@);
    assert(m[0] == (':' as u8));
    assert(sc[0] == (':' as u8));
    assert(a[0] == (':' as u8));
    assert(p[0] == (':' as u8));
    assert(st[0] == (':' as u8));
    assert(pr[0] == (':' as u8));
    assert(m[1] as int != ":scheme"@[1] as int);
    assert(st[2] as int != ":scheme"@[2] as int);
    assert(st[1] as int != ":method"@[1] as int);
}

/// How many pseudo-header fields `p` holds.
pub open spec fn spec_pseudo_count(p: PseudoModel) -> nat {
    (if p.method is Some { 1nat } else { 0nat }) + (if p.scheme is Some { 1nat } else { 0nat }) + (if p.authority is Some {
        1nat
    } else {
        0nat
    }) + (if p.path is Some { 1nat } else { 0nat }) + (if p.status is Some { 1nat } else { 0nat }) + (
    if p.protocol is Some {
        1nat
    } else {
        0nat
    })
}

/// The pseudo-header values of `p` are values that reading accepts.
pub open spec fn spec_pseudo_ok(p: PseudoModel) -> bool {
    &&& (p.method matches Some(m) ==> spec_method_valid(m))
    &&& (p.scheme matches Some(x) ==> spec_utf8_valid(x) && spec_scheme_valid(x))
    &&& (p.authority matches Some(x) ==> spec_utf8_valid(x) && x.len() > 0 && spec_authority_valid(x))
    &&& (p.path matches Some(x) ==> spec_strip_fragment(x) == x)
    &&& (p.status matches Some(c) ==> 100 <= c <= 999)
    &&& (p.protocol matches Some(x) ==> spec_utf8_valid(spec_char_bytes(x.spec_str())))
}

/// A status code read is three digits, and its digits read back as it.
proof fn lemma_status(v: Seq<u8>, c: u16)
    ensures
        spec_status(v) == Some(c) ==> 100 <= c <= 999,
        100 <= c <= 999 ==> spec_status(spec_status_bytes(c)) == Some(c),
{
    if 100 <= c <= 999 {
        let b = spec_status_bytes(c);
        let h = c / 100;
        let t = (c / 10) % 10;
        let u = c % 10;
        assert(1 <= h <= 9 && 0 <= t <= 9 && 0 <= u <= 9);
        assert(h * 100 + t * 10 + u == c) by (nonlinear_arith)
            requires
                h == c / 100,
                t == (c / 10) % 10,
                u == c % 10,
        {
        }
        assert(b[0] == 48 + h && b[1] == 48 + t && b[2] == 48 + u);
    }
}

/// What reading accepts of a pseudo-header field line is a value it
/// accepts again.
proof fn lemma_parse_facts(n: Seq<u8>, v: Seq<u8>)
    ensures
        spec_parse_field(n, v) matches Ok(f) ==> match f {
            FieldModel::Method(m) => spec_method_valid(m),
            FieldModel::Scheme(x) => spec_utf8_valid(x) && spec_scheme_valid(x),
            FieldModel::Authority(x) => spec_utf8_valid(x) && x.len() > 0 && spec_authority_valid(x),
            FieldModel::Path(x) => spec_strip_fragment(x) == x,
            FieldModel::Status(c) => 100 <= c <= 999,
            FieldModel::Protocol(p) => spec_utf8_valid(spec_char_bytes(p.spec_str())),
            FieldModel::Header(_, _) => true,
        },
{
    if let Ok(f) = spec_parse_field(n, v) {
        match f {
            FieldModel::Status(c) => {
                lemma_status(v, c);
            },
            FieldModel::Path(_) => {
                lemma_strip_fragment_twice(v);
            },
            FieldModel::Protocol(p) => {
                reveal_strlit("webtransport");
                reveal_strlit("connect-udp");
                p.lemma_parse_as_str();
                if spec_bytes_match(v, "webtransport"@) {
                    lemma_match_char_bytes(v, "webtransport"@);
                } else {
                    lemma_match_char_bytes(v, "connect-udp"@);
                }
            },
            _ => {},
        }
    }
}

/// The pseudo-header values of a section read are values reading accepts.
proof fn lemma_read_pseudo_ok(lines: Seq<Line>)
    ensures
        spec_read(lines) matches Ok(st) ==> spec_pseudo_ok(st.pseudo),
    decreases lines.len(),
{
    if lines.len() > 0 {
        lemma_read_pseudo_ok(lines.drop_last());
        let l = lines.last();
        lemma_parse_facts(l.0, l.1);
    }
}

/// The pseudo-header field lines of `p`, in the order they are written.
pub open spec fn spec_pseudo_lines(p: PseudoModel) -> Seq<Line> {
    spec_line(":method"@, p.method) + spec_line(":scheme"@, p.scheme) + spec_line(":authority"@, p.authority)
        + spec_line(":path"@, p.path) + spec_line(
        ":status"@,
        match p.status {
            Some(c) => Some(spec_status_bytes(c)),
            None => None,
        },
    ) + spec_line(
        ":protocol"@,
        match p.protocol {
            Some(x) => Some(spec_char_bytes(x.spec_str())),
            None => None,
        },
    )
}

/// Reading a pseudo-header line that reads as `f`, before any regular
/// field, records `f`; an absent line changes nothing.
proof fn lemma_read_line(st: ReadState, name: Seq<char>, v: Option<Seq<u8>>, f: FieldModel)
    requires
        !st.regular_seen,
        v matches Some(x) ==> spec_parse_field(spec_char_bytes(name), x) == Ok::<FieldModel, HeaderErrorModel>(f)
            && !(f is Header),
    ensures
        spec_read_from(st, spec_line(name, v)) == Ok::<ReadState, HeaderErrorModel>(
            match v {
                Some(_) => ReadState { pseudo: spec_set_pseudo(st.pseudo, f), ..st },
                None => st,
            },
        ),
{
    match v {
        Some(x) => {
            lemma_read_one(st, (spec_char_bytes(name), x));
        },
        None => {
            assert(spec_line(name, v) =~= Seq::<Line>::empty());
        },
    }
}

/// The path of `p`, when there is one, is a path reading accepts: the
/// `http` crate takes it as a path and query.
pub open spec fn spec_path_readable(p: PseudoModel) -> bool {
    p.path matches Some(x) ==> spec_utf8_valid(x) && x.len() > 0 && spec_path_and_query_valid(x)
}

/// A path without its fragment has no fragment.
proof fn lemma_strip_fragment_twice(v: Seq<u8>)
    ensures
        spec_strip_fragment(spec_strip_fragment(v)) == spec_strip_fragment(v),
    decreases v.len(),
{
    if v.len() > 0 && v[0] != 35 {
        let w = spec_strip_fragment(v.drop_first());
        lemma_strip_fragment_twice(v.drop_first());
        assert((seq![v[0]] + w).drop_first() =~= w);
    }
}

/// Reading the pseudo-header lines of `p` gives back `p`, when its values
/// are ones reading accepts and it counts each field once.
proof fn lemma_read_pseudo_lines(p: PseudoModel)
    requires
        spec_pseudo_ok(p),
        spec_path_readable(p),
        p.len == spec_pseudo_count(p),
    ensures
        spec_read(spec_pseudo_lines(p)) == Ok::<ReadState, HeaderErrorModel>(
            ReadState { pseudo: p, fields: Seq::empty(), regular_seen: false },
        ),
{
    lemma_pseudo_names();
    let e = Seq::<Line>::empty();
    let st0 = ReadState { pseudo: spec_no_pseudo(), fields: Seq::empty(), regular_seen: false };
    assert(spec_read(e) == Ok::<ReadState, HeaderErrorModel>(st0));
    let l1 = spec_line(":method"@, p.method);
    let l2 = spec_line(":scheme"@, p.scheme);
    let l3 = spec_line(":authority"@, p.authority);
    let l4 = spec_line(":path"@, p.path);
    let sv = match p.status {
        Some(c) => Some(spec_status_bytes(c)),
        None => None,
    };
    let l5 = spec_line(":status"@, sv);
    let pv = match p.protocol {
        Some(x) => Some(spec_char_bytes(x.spec_str())),
        None => None,
    };
    let l6 = spec_line(":protocol"@, pv);
    // :method
    let f1 = match p.method {
        Some(m) => FieldModel::Method(m),
        None => FieldModel::Method(Seq::empty()),
    };
    lemma_read_line(st0, ":method"@, p.method, f1);
    lemma_read_concat(e, l1);
    assert(e + l1 =~= l1);
    let st1 = match p.method {
        Some(_) => ReadState { pseudo: spec_set_pseudo(st0.pseudo, f1), ..st0 },
        None => st0,
    };
    assert(spec_read(l1) == Ok::<ReadState, HeaderErrorModel>(st1));
    // :scheme
    let f2 = match p.scheme {
        Some(x) => FieldModel::Scheme(x),
        None => FieldModel::Scheme(Seq::empty()),
    };
    lemma_read_line(st1, ":scheme"@, p.scheme, f2);
    lemma_read_concat(l1, l2);
    let st2 = match p.scheme {
        Some(_) => ReadState { pseudo: spec_set_pseudo(st1.pseudo, f2), ..st1 },
        None => st1,
    };
    assert(spec_read(l1 + l2) == Ok::<ReadState, HeaderErrorModel>(st2));
    // :authority
    let f3 = match p.authority {
        Some(x) => FieldModel::Authority(x),
        None => FieldModel::Authority(Seq::empty()),
    };
    lemma_read_line(st2, ":authority"@, p.authority, f3);
    lemma_read_concat(l1 + l2, l3);
    let st3 = match p.authority {
        Some(_) => ReadState { pseudo: spec_set_pseudo(st2.pseudo, f3), ..st2 },
        None => st2,
    };
    assert(spec_read(l1 + l2 + l3) == Ok::<ReadState, HeaderErrorModel>(st3));
    // :path
    let f4 = match p.path {
        Some(x) => FieldModel::Path(x),
        None => FieldModel::Path(Seq::empty()),
    };
    lemma_read_line(st3, ":path"@, p.path, f4);
    lemma_read_concat(l1 + l2 + l3, l4);
    let st4 = match p.path {
        Some(_) => ReadState { pseudo: spec_set_pseudo(st3.pseudo, f4), ..st3 },
        None => st3,
    };
    assert(spec_read(l1 + l2 + l3 + l4) == Ok::<ReadState, HeaderErrorModel>(st4));
    // :status
    let f5 = match p.status {
        Some(c) => FieldModel::Status(c),
        None => FieldModel::Status(0),
    };
    if let Some(c) = p.status {
        lemma_status(spec_status_bytes(c), c);
    }
    lemma_read_line(st4, ":status"@, sv, f5);
    lemma_read_concat(l1 + l2 + l3 + l4, l5);
    let st5 = match p.status {
        Some(_) => ReadState { pseudo: spec_set_pseudo(st4.pseudo, f5), ..st4 },
        None => st4,
    };
    assert(spec_read(l1 + l2 + l3 + l4 + l5) == Ok::<ReadState, HeaderErrorModel>(st5));
    // :protocol
    let f6 = match p.protocol {
        Some(x) => FieldModel::Protocol(x),
        None => FieldModel::Status(0),
    };
    if let Some(x) = p.protocol {
        reveal_strlit("webtransport");
        reveal_strlit("connect-udp");
        x.lemma_parse_as_str();
        lemma_char_bytes_match(x.spec_str());
    }
    lemma_read_line(st5, ":protocol"@, pv, f6);
    lemma_read_concat(l1 + l2 + l3 + l4 + l5, l6);
    let st6 = match p.protocol {
        Some(_) => ReadState { pseudo: spec_set_pseudo(st5.pseudo, f6), ..st5 },
        None => st5,
    };
    assert(spec_read(l1 + l2 + l3 + l4 + l5 + l6) == Ok::<ReadState, HeaderErrorModel>(st6));
    assert(st6.pseudo == p);
}

/// The fields of each name stand together.
pub open spec fn spec_grouped(s: Seq<Line>) -> bool {
    forall|i: int, j: int, k: int|
        #![trigger s[i], s[j], s[k]]
        0 <= i < j < k < s.len() && s[i].0 == s[k].0 ==> s[j].0 == s[i].0
}

/// At most one field is named `cookie`.
pub open spec fn spec_one_cookie(s: Seq<Line>) -> bool {
    forall|i: int, j: int|
        #![trigger s[i], s[j]]
        0 <= i < j < s.len() && s[i].0 == spec_cookie() ==> s[j].0 != spec_cookie()
}

proof fn lemma_first_index_none(s: Seq<Line>, n: Seq<u8>)
    ensures
        spec_first_index(s, n) < 0 <==> forall|m: int| 0 <= m < s.len() ==> (#[trigger] s[m]).0 != n,
    decreases s.len(),
{
    if s.len() > 0 {
        lemma_first_index_none(s.drop_last(), n);
        assert forall|m: int| 0 <= m < s.len() - 1 implies #[trigger] s[m] == s.drop_last()[m] by {}
        if spec_first_index(s.drop_last(), n) >= 0 {
            let w = choose|m: int| 0 <= m < s.drop_last().len() && (#[trigger] s.drop_last()[m]).0 == n;
            assert(s[w] == s.drop_last()[w]);
        }
    }
}

proof fn lemma_last_index_props(s: Seq<Line>, n: Seq<u8>)
    ensures
        -1 <= spec_last_index(s, n) < s.len(),
        spec_last_index(s, n) >= 0 ==> s[spec_last_index(s, n)].0 == n,
        forall|m: int| spec_last_index(s, n) < m < s.len() ==> (#[trigger] s[m]).0 != n,
    decreases s.len(),
{
    if s.len() > 0 && s.last().0 != n {
        lemma_last_index_props(s.drop_last(), n);
        assert forall|m: int| 0 <= m < s.len() - 1 implies #[trigger] s[m] == s.drop_last()[m] by {}
    }
}

/// Reading keeps the fields of each name together, with one cookie field at
/// most.
proof fn lemma_read_grouped(lines: Seq<Line>)
    ensures
        spec_read(lines) matches Ok(st) ==> spec_grouped(st.fields) && spec_one_cookie(st.fields),
    decreases lines.len(),
{
    if lines.len() > 0 {
        let prev = lines.drop_last();
        lemma_read_grouped(prev);
        if let Ok(st0) = spec_read(prev) {
            let s = st0.fields;
            let l = lines.last();
            if let Ok(FieldModel::Header(n, v)) = spec_parse_field(l.0, l.1) {
                if n == spec_cookie() {
                    lemma_first_index_none(s, spec_cookie());
                    let k = spec_first_index(s, spec_cookie());
                    if k < 0 {
                        let t = s.push((spec_cookie(), v));
                        assert forall|i: int, j: int, m: int|
                            #![trigger t[i], t[j], t[m]]
                            0 <= i < j < m < t.len() && t[i].0 == t[m].0 implies t[j].0 == t[i].0 by {
                            if m == s.len() {
                                assert(s[i] == t[i]);
                            } else {
                                assert(s[i] == t[i] && s[j] == t[j] && s[m] == t[m]);
                            }
                        }
                        assert forall|i: int, j: int|
                            #![trigger t[i], t[j]]
                            0 <= i < j < t.len() && t[i].0 == spec_cookie() implies t[j].0 != spec_cookie() by {
                            assert(s[i] == t[i]);
                            if j < s.len() {
                                assert(s[j] == t[j]);
                            }
                        }
                    } else {
                        let joined = s[k].1 + seq![59u8, 32] + v;
                        let t = s.update(k, (spec_cookie(), joined));
                        lemma_first_index_bounds_here(s, spec_cookie());
                        assert forall|m: int| 0 <= m < t.len() implies (#[trigger] t[m]).0 == s[m].0 by {}
                        assert forall|i: int, j: int, m: int|
                            #![trigger t[i], t[j], t[m]]
                            0 <= i < j < m < t.len() && t[i].0 == t[m].0 implies t[j].0 == t[i].0 by {
                            assert(t[i].0 == s[i].0 && t[j].0 == s[j].0 && t[m].0 == s[m].0);
                        }
                        assert forall|i: int, j: int|
                            #![trigger t[i], t[j]]
                            0 <= i < j < t.len() && t[i].0 == spec_cookie() implies t[j].0 != spec_cookie() by {
                            assert(t[i].0 == s[i].0 && t[j].0 == s[j].0);
                        }
                    }
                } else {
                    lemma_last_index_props(s, n);
                    let k = spec_last_index(s, n);
                    let t = spec_append(s, n, v);
                    if k >= 0 {
                        assert(t == s.insert(k + 1, (n, v)));
                        assert forall|m: int| 0 <= m < t.len() implies (#[trigger] t[m]).0 == (if m <= k {
                            s[m].0
                        } else if m == k + 1 {
                            n
                        } else {
                            s[m - 1].0
                        }) by {}
                        assert forall|i: int, j: int, m: int|
                            #![trigger t[i], t[j], t[m]]
                            0 <= i < j < m < t.len() && t[i].0 == t[m].0 implies t[j].0 == t[i].0 by {
                            let si = if i <= k { i } else { i - 1 };
                            let sj = if j <= k { j } else { j - 1 };
                            let sm = if m <= k { m } else { m - 1 };
                            if i == k + 1 {
                                assert(t[m].0 == s[m - 1].0);
                            } else if m == k + 1 {
                                assert(t[i].0 == s[i].0);
                                if j <= k && j < k {
                                    assert(s[i].0 == s[k].0);
                                    assert(s[j].0 == s[i].0);
                                }
                            } else if j == k + 1 {
                                assert(t[i].0 == s[i].0 && t[m].0 == s[m - 1].0);
                                if i < k {
                                    assert(s[k].0 == n);
                                }
                            } else {
                                assert(t[i].0 == s[si].0 && t[j].0 == s[sj].0 && t[m].0 == s[sm].0);
                                assert(si < sj < sm);
                            }
                        }
                        assert forall|i: int, j: int|
                            #![trigger t[i], t[j]]
                            0 <= i < j < t.len() && t[i].0 == spec_cookie() implies t[j].0 != spec_cookie() by {
                            let si = if i <= k { i } else { i - 1 };
                            let sj = if j <= k { j } else { j - 1 };
                            if i != k + 1 && j != k + 1 {
                                assert(t[i].0 == s[si].0 && t[j].0 == s[sj].0);
                                assert(si < sj);
                            }
                        }
                    } else {
                        assert(t == s.push((n, v)));
                        assert forall|i: int, j: int, m: int|
                            #![trigger t[i], t[j], t[m]]
                            0 <= i < j < m < t.len() && t[i].0 == t[m].0 implies t[j].0 == t[i].0 by {
                            if m == s.len() {
                                assert(s[i] == t[i]);
                            } else {
                                assert(s[i] == t[i] && s[j] == t[j] && s[m] == t[m]);
                            }
                        }
                        assert forall|i: int, j: int|
                            #![trigger t[i], t[j]]
                            0 <= i < j < t.len() && t[i].0 == spec_cookie() implies t[j].0 != spec_cookie() by {
                            assert(s[i] == t[i]);
                            if j < s.len() {
                                assert(s[j] == t[j]);
                            }
                        }
                    }
                }
            }
        }
    }
}

proof fn lemma_first_index_bounds_here(s: Seq<Line>, n: Seq<u8>)
    ensures
        -1 <= spec_first_index(s, n) < s.len(),
        spec_first_index(s, n) >= 0 ==> s[spec_first_index(s, n)].0 == n,
    decreases s.len(),
{
    if s.len() > 0 {
        lemma_first_index_bounds_here(s.drop_last(), n);
    }
}

/// A regular field a section accepts reads as itself.
proof fn lemma_acceptable_parses(f: Line)
    requires
        spec_acceptable_field(f),
    ensures
        spec_parse_field(f.0, f.1) == Ok::<FieldModel, HeaderErrorModel>(FieldModel::Header(f.0, f.1)),
{
    assert(f.0.len() >= 1);
    assert(spec_name_char(f.0[0]));
}

/// Reading, from a state without regular fields, the first `i` fields of a
/// grouped sequence of acceptable fields with one cookie at most gathers
/// exactly those fields.
proof fn lemma_read_fields(st0: ReadState, f: Seq<Line>, i: int)
    requires
        0 <= i <= f.len(),
        st0.fields == Seq::<Line>::empty(),
        spec_grouped(f),
        spec_one_cookie(f),
        forall|m: int| 0 <= m < f.len() ==> spec_acceptable_field(#[trigger] f[m]),
    ensures
        spec_read_from(st0, f.take(i)) == Ok::<ReadState, HeaderErrorModel>(
            ReadState { fields: f.take(i), regular_seen: st0.regular_seen || i > 0, ..st0 },
        ),
    decreases i,
{
    if i == 0 {
        assert(f.take(0) =~= Seq::<Line>::empty());
    } else {
        lemma_read_fields(st0, f, i - 1);
        let s = f.take(i - 1);
        assert(f.take(i).drop_last() =~= s);
        let l = f[i - 1];
        assert(f.take(i).last() == l);
        lemma_acceptable_parses(l);
        let (n, v) = l;
        let st = ReadState { fields: s, regular_seen: st0.regular_seen || i - 1 > 0, ..st0 };
        assert forall|m: int| 0 <= m < s.len() implies #[trigger] s[m] == f[m] by {}
        if n == spec_cookie() {
            lemma_first_index_none(s, spec_cookie());
            assert forall|m: int| 0 <= m < s.len() implies (#[trigger] s[m]).0 != spec_cookie() by {
                assert(s[m] == f[m]);
            }
            assert(spec_add_cookie(s, v) == Ok::<Seq<Line>, HeaderErrorModel>(s.push((n, v))));
        } else {
            lemma_last_index_props(s, n);
            let k = spec_last_index(s, n);
            if k >= 0 {
                if k < i - 2 {
                    assert(f[k].0 == n && f[i - 1].0 == n);
                    assert(f[i - 2].0 == f[k].0);
                    assert(s[i - 2] == f[i - 2]);
                }
                assert(k == i - 2);
                assert(s.insert(k + 1, (n, v)) =~= s.push((n, v)));
            }
            assert(spec_append(s, n, v) == s.push((n, v)));
        }
        assert(s.push((n, v)) =~= f.take(i));
    }
}

/// Writing out a field section that was read and reading the lines again
/// gives the same section: what a peer reads of the lines sent for a section
/// is that section, pseudo-header fields and regular fields alike. It holds
/// of every section read from lines that repeat no pseudo-header field,
/// whose path (its fragment dropped) the `http` crate still accepts.
pub proof fn lemma_lines_read_back(lines: Seq<Line>)
    requires
        spec_read(lines) is Ok,
        spec_read(lines)->Ok_0.pseudo.len == spec_pseudo_count(spec_read(lines)->Ok_0.pseudo),
        spec_path_readable(spec_read(lines)->Ok_0.pseudo),
    ensures
        ({
            let st = spec_read(lines)->Ok_0;
            spec_read(spec_field_lines((st.pseudo, st.fields))) == Ok::<ReadState, HeaderErrorModel>(
                ReadState { pseudo: st.pseudo, fields: st.fields, regular_seen: st.fields.len() > 0 },
            )
        }),
{
    let st = spec_read(lines)->Ok_0;
    lemma_read_pseudo_ok(lines);
    lemma_read_grouped(lines);
    lemma_read_accepts_only_valid(lines);
    lemma_read_pseudo_lines(st.pseudo);
    let pl = spec_pseudo_lines(st.pseudo);
    assert(spec_field_lines((st.pseudo, st.fields)) == pl + st.fields);
    lemma_read_concat(pl, st.fields);
    let st_p = ReadState { pseudo: st.pseudo, fields: Seq::empty(), regular_seen: false };
    lemma_read_fields(st_p, st.fields, st.fields.len() as int);
    assert(st.fields.take(st.fields.len() as int) =~= st.fields);
}

} // verus!
