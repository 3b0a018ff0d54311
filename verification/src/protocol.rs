//! The roles a bar instance can play, and the messages a view sends to the
//! controller that renders for it.
use vstd::prelude::*;

use crate::config_map::{lookup, same_chars, Config};
use crate::text::{
    all_digits, append_chars, chars_of, decimal, decimal_chars, digits_value, lemma_first_match,
    match_at, parse_isize, parse_isize_spec, parse_usize, parse_usize_spec, split, split_from,
    split_seq,
};

verus! {

/// The widest bar a view may ask for.
pub const MAX_BAR_WIDTH: usize = 10000;

/// How a bar instance works: on its own, rendering for views, or showing
/// what a controller renders.
#[derive(Clone, Copy, Debug, PartialEq, Eq, Structural)]
pub enum Role {
    Standalone,
    Controller,
    View,
}

/// The role the configuration asks for with `role`.
pub open spec fn role_spec(cfg: Map<Seq<char>, Seq<char>>) -> Role {
    match lookup(cfg, "role"@) {
        Some(v) => if v == "controller"@ {
            Role::Controller
        } else if v == "view"@ {
            Role::View
        } else {
            Role::Standalone
        },
        None => Role::Standalone,
    }
}

impl Role {
    /// The role the configuration asks for; standalone unless it says
    /// `controller` or `view`.
    pub fn from_config(configuration: &Config) -> (res: Role)
        ensures
            res == role_spec(configuration@),
    {
        if configuration.is_set_to("role", "controller") {
            Role::Controller
        } else if configuration.is_set_to("role", "view") {
            Role::View
        } else {
            Role::Standalone
        }
    }
}

/// A message from a view: its width, or a click at a line and column.
#[derive(Clone, Copy, Debug, PartialEq, Eq, Structural)]
pub enum ViewRequest {
    Width(usize),
    LeftClick(isize, usize),
    RightClick(isize, usize),
}

/// The request a message stands for: `width:<w>` with `0 < w <= 10000`, or
/// `left:<line>:<col>` / `right:<line>:<col>`, with nothing more.
pub open spec fn view_request_spec(raw: Seq<char>) -> Option<ViewRequest> {
    let fields = split_seq(raw, seq![':']);
    let kind = fields[0];
    if kind == "width"@ {
        if fields.len() == 2 {
            match parse_usize_spec(fields[1]) {
                Some(w) => if 0 < w && w <= MAX_BAR_WIDTH {
                    Some(ViewRequest::Width(w))
                } else {
                    None
                },
                None => None,
            }
        } else {
            None
        }
    } else if kind == "left"@ || kind == "right"@ {
        if fields.len() == 3 {
            match (parse_isize_spec(fields[1]), parse_usize_spec(fields[2])) {
                (Some(line), Some(col)) => Some(
                    if kind == "left"@ {
                        ViewRequest::LeftClick(line, col)
                    } else {
                        ViewRequest::RightClick(line, col)
                    },
                ),
                _ => None,
            }
        } else {
            None
        }
    } else {
        None
    }
}

/// The request a view sent, if the message is one.
pub fn parse_view_request(raw: &str) -> (res: Option<ViewRequest>)
    ensures
        res == view_request_spec(raw@),
{
    let text = chars_of(raw);
    let mut colon: Vec<char> = Vec::new();
    colon.push(':');
    assert(colon@ =~= seq![':']);
    let fields = split(&text, &colon);
    let ghost fv = fields.deep_view();
    proof {
        lemma_split_nonempty(text@, colon@, 0);
    }
    assert(fields[0]@ == fv[0]);
    let kind: &Vec<char> = &fields[0];
    if same_chars(kind, &chars_of("width")) {
        if fields.len() != 2 {
            return None;
        }
        assert(fields[1]@ == fv[1]);
        match parse_usize(&fields[1]) {
            Some(w) => if 0 < w && w <= MAX_BAR_WIDTH {
                Some(ViewRequest::Width(w))
            } else {
                None
            },
            None => None,
        }
    } else {
        let left = same_chars(kind, &chars_of("left"));
        let right = same_chars(kind, &chars_of("right"));
        if !left && !right {
            return None;
        }
        if fields.len() != 3 {
            return None;
        }
        assert(fields[1]@ == fv[1]);
        assert(fields[2]@ == fv[2]);
        match (parse_isize(&fields[1]), parse_usize(&fields[2])) {
            (Some(line), Some(col)) => Some(
                if left {
                    ViewRequest::LeftClick(line, col)
                } else {
                    ViewRequest::RightClick(line, col)
                },
            ),
            _ => None,
        }
    }
}

/// Splitting always gives at least one piece.
pub proof fn lemma_split_nonempty(s: Seq<char>, pat: Seq<char>, start: int)
    requires
        0 <= start <= s.len(),
    ensures
        split_from(s, pat, start).len() >= 1,
{
    if pat.len() > 0 {
        lemma_first_match(s, pat, start);
    }
}

/// The decimal notation of a signed number.
pub open spec fn signed_decimal(n: isize) -> Seq<char> {
    if n < 0 {
        seq!['-'] + decimal((0 - n) as nat)
    } else {
        decimal(n as nat)
    }
}

/// The message that carries a request.
pub open spec fn encode_spec(r: ViewRequest) -> Seq<char> {
    match r {
        ViewRequest::Width(w) => "width"@ + seq![':'] + decimal(w as nat),
        ViewRequest::LeftClick(line, col) => "left"@ + seq![':'] + signed_decimal(line) + seq![':']
            + decimal(col as nat),
        ViewRequest::RightClick(line, col) => "right"@ + seq![':'] + signed_decimal(line) + seq![
            ':',
        ] + decimal(col as nat),
    }
}

/// A request a view may send: widths lie in `1..=10000`.
pub open spec fn sendable(r: ViewRequest) -> bool {
    match r {
        ViewRequest::Width(w) => 0 < w && w <= MAX_BAR_WIDTH,
        _ => true,
    }
}

fn signed_decimal_chars(n: isize) -> (res: Vec<char>)
    ensures
        res@ == signed_decimal(n),
{
    if n < 0 {
        let m = (0i128 - n as i128) as usize;
        let mut v: Vec<char> = Vec::new();
        v.push('-');
        let d = decimal_chars(m);
        append_chars(&mut v, &d);
        assert(v@ =~= seq!['-'] + decimal((0 - n) as nat));
        v
    } else {
        decimal_chars(n as usize)
    }
}

impl ViewRequest {
    /// The message that carries this request, as a view sends it.
    pub fn encode(&self) -> (res: String)
        ensures
            res@ == encode_spec(*self),
    {
        let mut v: Vec<char> = Vec::new();
        match *self {
            ViewRequest::Width(w) => {
                v = chars_of("width");
                v.push(':');
                let d = decimal_chars(w);
                append_chars(&mut v, &d);
            },
            ViewRequest::LeftClick(line, col) | ViewRequest::RightClick(line, col) => {
                v = if matches!(*self, ViewRequest::LeftClick(_, _)) {
                    chars_of("left")
                } else {
                    chars_of("right")
                };
                v.push(':');
                let l = signed_decimal_chars(line);
                append_chars(&mut v, &l);
                v.push(':');
                let d = decimal_chars(col);
                append_chars(&mut v, &d);
            },
        }
        assert(v@ =~= encode_spec(*self));
        crate::text::string_of(&v)
    }
}

// ---------------------------------------------------------------------------
// Round trip
// ---------------------------------------------------------------------------

/// `decimal(n)` is one or more digits worth `n`.
pub proof fn lemma_decimal_digits(n: nat)
    ensures
        decimal(n).len() > 0,
        all_digits(decimal(n)),
        digits_value(decimal(n)) == n,
    decreases n,
{
    let r = n % 10;
    assert(crate::text::digit_char(r) as nat == r + 48);
    if n >= 10 {
        lemma_decimal_digits(n / 10);
        let d = decimal(n);
        assert(d.drop_last() =~= decimal(n / 10));
        assert(d.last() == crate::text::digit_char(r));
        assert(digits_value(d) == digits_value(d.drop_last()) * 10 + (d.last() as nat - 48) as nat);
        assert(n == (n / 10) * 10 + n % 10);
    } else {
        let d = decimal(n);
        assert(d.drop_last() =~= Seq::<char>::empty());
        assert(d.last() == crate::text::digit_char(r));
        assert(digits_value(d) == digits_value(d.drop_last()) * 10 + (d.last() as nat - 48) as nat);
    }
}

/// A number written in decimal is read back by `parse_usize_spec`.
pub proof fn lemma_parse_decimal(n: usize)
    ensures
        parse_usize_spec(decimal(n as nat)) == Some(n),
{
    lemma_decimal_digits(n as nat);
}

/// A signed number written in decimal is read back by `parse_isize_spec`.
pub proof fn lemma_parse_signed_decimal(n: isize)
    ensures
        parse_isize_spec(signed_decimal(n)) == Some(n),
{
    if n < 0 {
        let m = (0 - n) as nat;
        lemma_decimal_digits(m);
        assert((seq!['-'] + decimal(m)).skip(1) =~= decimal(m));
    } else {
        lemma_decimal_digits(n as nat);
    }
}

/// `pat` of one character matches exactly where that character stands.
proof fn lemma_match_char(s: Seq<char>, c: char, k: int)
    requires
        0 <= k < s.len(),
    ensures
        match_at(s, seq![c], k) == (s[k] == c),
{
    if s[k] == c {
        assert(s.subrange(k, k + 1) =~= seq![c]);
    } else {
        assert(s.subrange(k, k + 1)[0] != seq![c][0]);
    }
}

/// Cutting at the first `c` after `start`.
proof fn lemma_split_at_char(s: Seq<char>, c: char, start: int, j: int)
    requires
        0 <= start <= j < s.len(),
        s[j] == c,
        forall|k: int| start <= k < j ==> s[k] != c,
    ensures
        split_from(s, seq![c], start) == seq![s.subrange(start, j)] + split_from(s, seq![c], j + 1),
{
    assert forall|k: int| start <= k < j implies !match_at(s, seq![c], k) by {
        lemma_match_char(s, c, k);
    }
    crate::text::lemma_first_match_skip(s, seq![c], start, j);
    lemma_match_char(s, c, j);
}

/// Without `c` after `start`, the rest is a single piece.
proof fn lemma_split_no_char(s: Seq<char>, c: char, start: int)
    requires
        0 <= start <= s.len(),
        forall|k: int| start <= k < s.len() ==> s[k] != c,
    ensures
        split_from(s, seq![c], start) == seq![s.subrange(start, s.len() as int)],
{
    assert forall|k: int| start <= k < s.len() implies !match_at(s, seq![c], k) by {
        lemma_match_char(s, c, k);
    }
    crate::text::lemma_first_match_skip(s, seq![c], start, s.len() as int);
}

/// The parts of a message that holds no `:` of its own.
proof fn lemma_no_colon_in_digits(n: nat)
    ensures
        forall|k: int| 0 <= k < decimal(n).len() ==> decimal(n)[k] != ':',
{
    lemma_decimal_digits(n);
    assert forall|k: int| 0 <= k < decimal(n).len() implies decimal(n)[k] != ':' by {
        assert(crate::text::is_digit(decimal(n)[k]));
    }
}

/// Every request a view may send is read back as itself.
pub proof fn lemma_request_roundtrip(r: ViewRequest)
    requires
        sendable(r),
    ensures
        view_request_spec(encode_spec(r)) == Some(r),
{
    reveal_strlit("width");
    reveal_strlit("left");
    reveal_strlit("right");
    match r {
        ViewRequest::Width(w) => {
            let d = decimal(w as nat);
            let s = "width"@ + seq![':'] + d;
            lemma_no_colon_in_digits(w as nat);
            lemma_split_at_char(s, ':', 0, 5);
            lemma_split_no_char(s, ':', 6);
            assert(s.subrange(0, 5) =~= "width"@);
            assert(s.subrange(6, s.len() as int) =~= d);
            lemma_parse_decimal(w);
            assert("width"@ != "left"@);
        },
        ViewRequest::LeftClick(line, col) | ViewRequest::RightClick(line, col) => {
            let name = if r is LeftClick {
                "left"@
            } else {
                "right"@
            };
            let l = signed_decimal(line);
            let d = decimal(col as nat);
            let s = name + seq![':'] + l + seq![':'] + d;
            assert(s == encode_spec(r));
            lemma_no_colon_in_digits(col as nat);
            if line < 0 {
                lemma_no_colon_in_digits((0 - line) as nat);
            } else {
                lemma_no_colon_in_digits(line as nat);
            }
            assert(forall|k: int| 0 <= k < l.len() ==> l[k] != ':');
            let n = name.len() as int;
            lemma_split_at_char(s, ':', 0, n);
            lemma_split_at_char(s, ':', n + 1, n + 1 + l.len());
            lemma_split_no_char(s, ':', n + 2 + l.len());
            assert(s.subrange(0, n) =~= name);
            assert(s.subrange(n + 1, n + 1 + l.len()) =~= l);
            assert(s.subrange(n + 2 + l.len(), s.len() as int) =~= d);
            lemma_parse_signed_decimal(line);
            lemma_parse_decimal(col);
            assert(name[0] != "width"@[0]);
            assert("left"@[0] != "right"@[0]);
        },
    }
}

} // verus!
