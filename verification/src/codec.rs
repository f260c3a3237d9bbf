//! The JSON form of the configuration file, with a verified writer and
//! reader. Reading back what was written yields the same value, for every
//! model selection and served-model name; see
//! [`lemma_save_load_round_trip`].

use vstd::prelude::*;

use crate::config::{Config, ConfigView};
use crate::model::{Model, ModelView};
use crate::text::{dec_rep, dec_val, digit_val, is_digit, lemma_dec_rep_val, u32_to_dec};

verus! {

/// The escaping of one character inside a JSON string literal: quotes and
/// backslashes take a leading backslash, everything else stands as itself.
pub open spec fn esc_char(c: char) -> Seq<char> {
    if c == '"' || c == '\\' {
        seq!['\\', c]
    } else {
        seq![c]
    }
}

/// The escaped body of a JSON string literal.
pub open spec fn esc(s: Seq<char>) -> Seq<char>
    decreases s.len(),
{
    if s.len() == 0 {
        Seq::empty()
    } else {
        esc_char(s[0]) + esc(s.drop_first())
    }
}

/// The JSON value a model selection is stored as: a bare string for the two
/// fixed OpenAI models, a one-field object for a locally served model.
pub open spec fn model_json(m: ModelView) -> Seq<char> {
    match m {
        ModelView::Gpt4o => "\"gpt-4o\""@,
        ModelView::Gpt4oMini => "\"gpt-4o-mini\""@,
        ModelView::Ollama(name) => "{ \"ollama\": \""@ + esc(name) + "\""@ + " }"@,
    }
}

/// The whole configuration file: a pretty-printed two-field JSON object.
pub open spec fn config_json(c: ConfigView) -> Seq<char> {
    "{\n  \"model\": "@ + model_json(c.model) + ",\n  \"max_tokens\": "@ + dec_rep(
        c.max_tokens as nat,
    ) + "\n}"@
}

/// The literal `lit` stands in `s` at position `i`; the position after it.
pub open spec fn expect_lit(s: Seq<char>, i: int, lit: Seq<char>) -> Option<int> {
    if 0 <= i && i + lit.len() <= s.len() && s.subrange(i, i + lit.len()) == lit {
        Some(i + lit.len())
    } else {
        None
    }
}

/// Scan a JSON string-literal body from position `i` up to its closing
/// quote: the unescaped content and the position after the quote.
pub open spec fn scan_quoted(s: Seq<char>, i: int) -> Option<(Seq<char>, int)>
    decreases s.len() - i,
{
    if i < 0 || i >= s.len() {
        None
    } else if s[i] == '"' {
        Some((Seq::empty(), i + 1))
    } else if s[i] == '\\' {
        if i + 1 < s.len() && (s[i + 1] == '"' || s[i + 1] == '\\') {
            match scan_quoted(s, i + 2) {
                Some(p) => Some((seq![s[i + 1]] + p.0, p.1)),
                None => None,
            }
        } else {
            None
        }
    } else {
        match scan_quoted(s, i + 1) {
            Some(p) => Some((seq![s[i]] + p.0, p.1)),
            None => None,
        }
    }
}

/// The position of the first non-digit at or after `i`.
pub open spec fn digits_end(s: Seq<char>, i: int) -> int
    decreases s.len() - i,
{
    if i < 0 || i >= s.len() {
        i
    } else if is_digit(s[i]) {
        digits_end(s, i + 1)
    } else {
        i
    }
}

/// Parse the stored model value at position `i`.
pub open spec fn parse_model(s: Seq<char>, i: int) -> Option<(ModelView, int)> {
    match expect_lit(s, i, "\"gpt-4o\""@) {
        Some(j) => Some((ModelView::Gpt4o, j)),
        None => match expect_lit(s, i, "\"gpt-4o-mini\""@) {
            Some(j) => Some((ModelView::Gpt4oMini, j)),
            None => match expect_lit(s, i, "{ \"ollama\": \""@) {
                Some(j) => match scan_quoted(s, j) {
                    Some(p) => match expect_lit(s, p.1, " }"@) {
                        Some(k) => Some((ModelView::Ollama(p.0), k)),
                        None => None,
                    },
                    None => None,
                },
                None => None,
            },
        },
    }
}

/// Parse a whole configuration file. On the stored form of a well-formed
/// configuration it recovers that configuration; see
/// [`lemma_save_load_round_trip`].
pub open spec fn spec_parse(s: Seq<char>) -> Option<ConfigView> {
    match expect_lit(s, 0, "{\n  \"model\": "@) {
        Some(i) => match parse_model(s, i) {
            Some(m) => match expect_lit(s, m.1, ",\n  \"max_tokens\": "@) {
                Some(k) => {
                    let e = digits_end(s, k);
                    let v = dec_val(s.subrange(k, e));
                    if e > k && 1 <= v <= 4096 {
                        match expect_lit(s, e, "\n}"@) {
                            Some(l) => if l == s.len() {
                                Some(ConfigView { model: m.0, max_tokens: v as int })
                            } else {
                                None
                            },
                            None => None,
                        }
                    } else {
                        None
                    }
                },
                None => None,
            },
            None => None,
        },
        None => None,
    }
}

fn expect_lit_at(s: &str, i: usize, lit: &str) -> (r: Option<usize>)
    requires
        i <= s@.len() <= usize::MAX,
    ensures
        match r {
            Some(j) => expect_lit(s@, i as int, lit@) == Some(j as int) && j <= s@.len(),
            None => expect_lit(s@, i as int, lit@) is None,
        },
{
    let n = s.unicode_len();
    let m = lit.unicode_len();
    if m > n - i {
        return None;
    }
    let mut k: usize = 0;
    while k < m
        invariant
            0 <= k <= m,
            i + m <= n <= usize::MAX,
            n == s@.len(),
            m == lit@.len(),
            forall|j: int| 0 <= j < k ==> s@[i + j] == lit@[j],
        decreases m - k,
    {
        if s.get_char(i + k) != lit.get_char(k) {
            proof {
                assert(s@.subrange(i as int, i + lit@.len() as int) != lit@) by {
                    assert(s@.subrange(i as int, i + lit@.len() as int)[k as int] == s@[i + k]);
                }
            }
            return None;
        }
        k += 1;
    }
    proof {
        assert(s@.subrange(i as int, i + lit@.len() as int) =~= lit@);
    }
    Some(i + m)
}

fn scan_quoted_at(s: &str, i: usize) -> (r: Option<(String, usize)>)
    requires
        i <= s@.len() <= usize::MAX,
    ensures
        match r {
            Some(p) => scan_quoted(s@, i as int) == Some((p.0@, p.1 as int)) && p.1 <= s@.len(),
            None => scan_quoted(s@, i as int) is None,
        },
    decreases s@.len() - i,
{
    let n = s.unicode_len();
    if i >= n {
        return None;
    }
    let c = s.get_char(i);
    if c == '"' {
        let empty = String::new();
        proof {
            assert(empty@ =~= Seq::<char>::empty());
        }
        return Some((empty, i + 1));
    }
    if c == '\\' {
        if i + 1 < n {
            let c2 = s.get_char(i + 1);
            if c2 == '"' || c2 == '\\' {
                match scan_quoted_at(s, i + 2) {
                    Some(p) => {
                        let (tail, j) = p;
                        let mut head = s.substring_char(i + 1, i + 2).to_owned();
                        head.append(tail.as_str());
                        proof {
                            assert(head@ =~= seq![s@[i + 1]] + tail@);
                        }
                        return Some((head, j));
                    },
                    None => return None,
                }
            }
        }
        return None;
    }
    match scan_quoted_at(s, i + 1) {
        Some(p) => {
            let (tail, j) = p;
            let mut head = s.substring_char(i, i + 1).to_owned();
            head.append(tail.as_str());
            proof {
                assert(head@ =~= seq![s@[i as int]] + tail@);
            }
            Some((head, j))
        },
        None => None,
    }
}

fn scan_number(s: &str, i: usize) -> (r: (u32, usize))
    requires
        i <= s@.len() <= usize::MAX,
    ensures
        r.1 == digits_end(s@, i as int),
        i <= r.1 <= s@.len(),
        dec_val(s@.subrange(i as int, r.1 as int)) <= 4096 ==> r.0 == dec_val(
            s@.subrange(i as int, r.1 as int),
        ),
        dec_val(s@.subrange(i as int, r.1 as int)) > 4096 ==> r.0 == 4097,
{
    let n = s.unicode_len();
    let mut cur: usize = i;
    let mut acc: u32 = 0;
    let mut stop = false;
    while !stop && cur < n
        invariant
            i <= cur <= n,
            n == s@.len() <= usize::MAX,
            acc <= 4097,
            digits_end(s@, i as int) == digits_end(s@, cur as int),
            stop ==> digits_end(s@, cur as int) == cur,
            forall|j: int| i <= j < cur ==> is_digit(#[trigger] s@[j]),
            dec_val(s@.subrange(i as int, cur as int)) <= 4096 ==> acc == dec_val(
                s@.subrange(i as int, cur as int),
            ),
            dec_val(s@.subrange(i as int, cur as int)) > 4096 ==> acc == 4097,
        decreases 2 * (n - cur) + if stop {
            0int
        } else {
            1int
        },
    {
        let c = s.get_char(cur);
        let cv = c as u32;
        if cv < 48 || cv > 57 {
            proof {
                assert(!is_digit(s@[cur as int]));
            }
            stop = true;
        } else {
            let d = cv - 48;
            proof {
                assert(is_digit(s@[cur as int]));
                assert(s@.subrange(i as int, cur + 1).drop_last() =~= s@.subrange(
                    i as int,
                    cur as int,
                ));
                assert(s@.subrange(i as int, cur + 1).last() == s@[cur as int]);
                assert(dec_val(s@.subrange(i as int, cur + 1)) == dec_val(
                    s@.subrange(i as int, cur as int),
                ) * 10 + digit_val(s@[cur as int]));
                assert(digit_val(s@[cur as int]) == d);
            }
            if acc > 409 || (acc == 409 && d > 6) {
                acc = 4097;
            } else {
                acc = acc * 10 + d;
            }
            cur += 1;
        }
    }
    (acc, cur)
}

fn parse_model_at(s: &str, i: usize) -> (r: Option<(Model, usize)>)
    requires
        i <= s@.len() <= usize::MAX,
    ensures
        match r {
            Some(p) => parse_model(s@, i as int) == Some((p.0@, p.1 as int)) && p.1 <= s@.len(),
            None => parse_model(s@, i as int) is None,
        },
{
    if let Some(j) = expect_lit_at(s, i, "\"gpt-4o\"") {
        return Some((Model::OpenAiGpt4o, j));
    }
    if let Some(j) = expect_lit_at(s, i, "\"gpt-4o-mini\"") {
        return Some((Model::OpenAiGpt4oMini, j));
    }
    let j = match expect_lit_at(s, i, "{ \"ollama\": \"") {
        Some(j) => j,
        None => {
            return None;
        },
    };
    let (name, k) = match scan_quoted_at(s, j) {
        Some(p) => p,
        None => {
            return None;
        },
    };
    match expect_lit_at(s, k, " }") {
        Some(l) => Some((Model::Ollama(name), l)),
        None => None,
    }
}

/// Parse the JSON text of a configuration file. On the stored form of any
/// well-formed configuration this returns that configuration; any returned
/// configuration is well formed.
pub fn from_json(s: &str) -> (r: Option<Config>)
    ensures
        match r {
            Some(c) => c.wf() && spec_parse(s@) == Some(c@),
            None => spec_parse(s@) is None,
        },
{
    let n = s.unicode_len();
    let i = match expect_lit_at(s, 0, "{\n  \"model\": ") {
        Some(i) => i,
        None => {
            return None;
        },
    };
    let (model, j) = match parse_model_at(s, i) {
        Some(p) => p,
        None => {
            return None;
        },
    };
    let k = match expect_lit_at(s, j, ",\n  \"max_tokens\": ") {
        Some(k) => k,
        None => {
            return None;
        },
    };
    let (val, e) = scan_number(s, k);
    if e == k || val < 1 || val > 4096 {
        return None;
    }
    let l = match expect_lit_at(s, e, "\n}") {
        Some(l) => l,
        None => {
            return None;
        },
    };
    if l != n {
        return None;
    }
    Some(Config { model, max_tokens: val as i32 })
}

fn escape_string(s: &str) -> (r: String)
    ensures
        r@ == esc(s@),
    decreases s@.len(),
{
    let n = s.unicode_len();
    if n == 0 {
        proof {
            assert(esc(s@) =~= Seq::<char>::empty());
        }
        return String::new();
    }
    let c = s.get_char(0);
    let mut head = if c == '"' {
        proof {
            reveal_strlit("\\\"");
        }
        let h = "\\\"".to_owned();
        proof {
            assert(h@ =~= esc_char(s@[0]));
        }
        h
    } else if c == '\\' {
        proof {
            reveal_strlit("\\\\");
        }
        let h = "\\\\".to_owned();
        proof {
            assert(h@ =~= esc_char(s@[0]));
        }
        h
    } else {
        let h = s.substring_char(0, 1).to_owned();
        proof {
            assert(h@ =~= esc_char(s@[0]));
        }
        h
    };
    let rest = s.substring_char(1, n);
    proof {
        assert(rest@ =~= s@.drop_first());
    }
    let tail = escape_string(rest);
    head.append(tail.as_str());
    proof {
        assert(head@ =~= esc_char(s@[0]) + esc(s@.drop_first()));
    }
    head
}

/// Scanning an escaped string body followed by its closing quote recovers
/// exactly the original string.
proof fn lemma_scan_quoted_canonical(s: Seq<char>, i: int, name: Seq<char>)
    requires
        0 <= i,
        i + esc(name).len() + 1 <= s.len(),
        s.subrange(i, i + esc(name).len() + 1) == esc(name) + seq!['"'],
    ensures
        scan_quoted(s, i) == Some((name, i + esc(name).len() + 1)),
    decreases name.len(),
{
    let el = esc(name).len();
    let window = s.subrange(i, i + el + 1);
    if name.len() == 0 {
        assert(esc(name) =~= Seq::<char>::empty());
        assert(s[i] == window[0]);
        assert(window[0] == '"');
    } else {
        let c = name[0];
        let rest = name.drop_first();
        assert(esc(name) == esc_char(c) + esc(rest));
        let rl = esc(rest).len();
        if c == '"' || c == '\\' {
            assert(esc_char(c) =~= seq!['\\', c]);
            assert(el == 2 + rl);
            assert(s[i] == window[0] && window[0] == '\\');
            assert(s[i + 1] == window[1] && window[1] == c);
            assert(s.subrange(i + 2, i + 2 + rl + 1) =~= esc(rest) + seq!['"']) by {
                assert(forall|t: int|
                    0 <= t < rl + 1 ==> #[trigger] s.subrange(i + 2, i + 2 + rl + 1)[t]
                        == window[t + 2]);
            }
            lemma_scan_quoted_canonical(s, i + 2, rest);
            assert(scan_quoted(s, i) == Some((seq![s[i + 1]] + rest, i + 2 + rl + 1)));
            assert(seq![s[i + 1]] + rest =~= name);
        } else {
            assert(esc_char(c) =~= seq![c]);
            assert(el == 1 + rl);
            assert(s[i] == window[0] && window[0] == c);
            assert(s.subrange(i + 1, i + 1 + rl + 1) =~= esc(rest) + seq!['"']) by {
                assert(forall|t: int|
                    0 <= t < rl + 1 ==> #[trigger] s.subrange(i + 1, i + 1 + rl + 1)[t]
                        == window[t + 1]);
            }
            lemma_scan_quoted_canonical(s, i + 1, rest);
            assert(scan_quoted(s, i) == Some((seq![s[i]] + rest, i + 1 + rl + 1)));
            assert(seq![s[i]] + rest =~= name);
        }
    }
}

/// Scanning digits stops exactly at the first non-digit.
proof fn lemma_digits_end_canonical(s: Seq<char>, i: int, d: Seq<char>, rest: Seq<char>)
    requires
        0 <= i <= s.len(),
        s.subrange(i, s.len() as int) == d + rest,
        crate::text::all_digits(d),
        rest.len() > 0,
        !is_digit(rest[0]),
    ensures
        digits_end(s, i) == i + d.len(),
    decreases d.len(),
{
    let tail = s.subrange(i, s.len() as int);
    assert(tail.len() == d.len() + rest.len());
    assert(i < s.len());
    if d.len() == 0 {
        assert(tail[0] == s[i + 0]);
        assert(tail[0] == (d + rest)[0]);
        assert((d + rest)[0] == rest[0]);
        assert(!is_digit(s[i]));
    } else {
        assert(tail[0] == s[i + 0]);
        assert(tail[0] == (d + rest)[0]);
        assert((d + rest)[0] == d[0]);
        assert(is_digit(d[0]));
        assert(is_digit(s[i]));
        let tail2 = s.subrange(i + 1, s.len() as int);
        assert forall|t: int| 0 <= t < tail2.len() implies #[trigger] tail2[t] == (d.drop_first()
            + rest)[t] by {
            assert(tail2[t] == s[i + 1 + t]);
            assert(tail[t + 1] == s[i + 1 + t]);
            assert(tail[t + 1] == (d + rest)[t + 1]);
            if t + 1 < d.len() {
                assert((d + rest)[t + 1] == d[t + 1]);
                assert(d.drop_first()[t] == d[t + 1]);
                assert((d.drop_first() + rest)[t] == d.drop_first()[t]);
            } else {
                assert((d + rest)[t + 1] == rest[t + 1 - d.len()]);
                assert((d.drop_first() + rest)[t] == rest[t - d.drop_first().len()]);
            }
        }
        assert(tail2 =~= d.drop_first() + rest);
        assert(crate::text::all_digits(d.drop_first()));
        lemma_digits_end_canonical(s, i + 1, d.drop_first(), rest);
    }
}

/// The configuration round-trip law: parsing the stored form of any
/// well-formed configuration yields that configuration back, for every model
/// selection and every served-model name.
pub proof fn lemma_save_load_round_trip(v: ConfigView)
    requires
        v.wf(),
    ensures
        spec_parse(config_json(v)) == Some(v),
{
    let pre = "{\n  \"model\": "@;
    let mj = model_json(v.model);
    let mid = ",\n  \"max_tokens\": "@;
    let dr = dec_rep(v.max_tokens as nat);
    let suf = "\n}"@;
    let s = config_json(v);
    assert(s == pre + mj + mid + dr + suf);
    let o1 = pre.len() as int;
    let o2 = o1 + mj.len();
    let o3 = o2 + mid.len();
    lemma_dec_rep_val(v.max_tokens as nat);
    let o4 = o3 + dr.len();
    assert(s.len() == o4 + suf.len());

    // The opening brace and the field name.
    assert(s.subrange(0, 0 + pre.len() as int) =~= pre);
    assert(expect_lit(s, 0, pre) == Some(o1));

    // The model value.
    let full = "\"gpt-4o\""@;
    let mini = "\"gpt-4o-mini\""@;
    let opre = "{ \"ollama\": \""@;
    reveal_strlit("\"gpt-4o\"");
    reveal_strlit("\"gpt-4o-mini\"");
    reveal_strlit("{ \"ollama\": \"");
    reveal_strlit("\"");
    reveal_strlit(" }");
    reveal_strlit("\n}");
    match v.model {
        ModelView::Gpt4o => {
            assert(s.subrange(o1, o1 + full.len() as int) =~= full);
            assert(parse_model(s, o1) == Some((ModelView::Gpt4o, o2)));
        },
        ModelView::Gpt4oMini => {
            assert(s[o1 + 7] == mj[7]);
            assert(expect_lit(s, o1, full) is None) by {
                if expect_lit(s, o1, full) is Some {
                    assert(s.subrange(o1, o1 + full.len() as int) == full);
                    assert(s.subrange(o1, o1 + full.len() as int)[7] == s[o1 + 7]);
                }
            }
            assert(s.subrange(o1, o1 + mini.len() as int) =~= mini);
            assert(parse_model(s, o1) == Some((ModelView::Gpt4oMini, o2)));
        },
        ModelView::Ollama(name) => {
            assert(mj == opre + esc(name) + "\""@ + " }"@);
            assert(s[o1] == mj[0]);
            assert(mj[0] == '{');
            assert(expect_lit(s, o1, full) is None) by {
                if expect_lit(s, o1, full) is Some {
                    assert(s.subrange(o1, o1 + full.len() as int) == full);
                    assert(s.subrange(o1, o1 + full.len() as int)[0] == s[o1]);
                }
            }
            assert(expect_lit(s, o1, mini) is None) by {
                if expect_lit(s, o1, mini) is Some {
                    assert(s.subrange(o1, o1 + mini.len() as int) == mini);
                    assert(s.subrange(o1, o1 + mini.len() as int)[0] == s[o1]);
                }
            }
            assert(s.subrange(o1, o1 + opre.len() as int) =~= opre);
            assert(expect_lit(s, o1, opre) == Some(o1 + opre.len()));
            let i0 = o1 + opre.len() as int;
            let el = esc(name).len() as int;
            assert(s.subrange(i0, i0 + el + 1) =~= esc(name) + seq!['"']);
            lemma_scan_quoted_canonical(s, i0, name);
            assert(scan_quoted(s, i0) == Some((name, i0 + el + 1)));
            assert(s.subrange(i0 + el + 1, i0 + el + 1 + 2) =~= " }"@);
            assert(expect_lit(s, i0 + el + 1, " }"@) == Some(o2));
            assert(parse_model(s, o1) == Some((ModelView::Ollama(name), o2)));
        },
    }

    // The token field name.
    assert(s.subrange(o2, o2 + mid.len() as int) =~= mid);
    assert(expect_lit(s, o2, mid) == Some(o3));

    // The token value digits.
    assert(s.subrange(o3, s.len() as int) =~= dr + suf);
    assert(suf[0] == '\n');
    assert(!is_digit('\n'));
    lemma_digits_end_canonical(s, o3, dr, suf);
    assert(digits_end(s, o3) == o4);
    assert(s.subrange(o3, o4) =~= dr);
    assert(dec_val(s.subrange(o3, o4)) == v.max_tokens);

    // The closing brace, and nothing after it.
    assert(s.subrange(o4, o4 + suf.len() as int) =~= suf);
    assert(expect_lit(s, o4, suf) == Some(s.len() as int));
    assert(spec_parse(s) == Some(ConfigView { model: v.model, max_tokens: v.max_tokens }));
    assert(ConfigView { model: v.model, max_tokens: v.max_tokens } == v);
}

/// Serialise a configuration to the JSON text that is written to disk.
pub fn to_json(c: &Config) -> (r: String)
    requires
        c.wf(),
    ensures
        r@ == config_json(c@),
{
    let mut out = "{\n  \"model\": ".to_owned();
    match &c.model {
        Model::OpenAiGpt4o => {
            out.append("\"gpt-4o\"");
        },
        Model::OpenAiGpt4oMini => {
            out.append("\"gpt-4o-mini\"");
        },
        Model::Ollama(name) => {
            out.append("{ \"ollama\": \"");
            let escaped = escape_string(name.as_str());
            out.append(escaped.as_str());
            out.append("\"");
            out.append(" }");
        },
    }
    out.append(",\n  \"max_tokens\": ");
    let tokens = u32_to_dec(c.max_tokens as u32);
    out.append(tokens.as_str());
    out.append("\n}");
    proof {
        assert(out@ =~= config_json(c@));
    }
    out
}

} // verus!
