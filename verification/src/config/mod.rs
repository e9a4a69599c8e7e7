//! Command-line configuration of the services: options, environment values
//! and defaults. Addresses stay text here, checked against what the standard
//! library's address parsers made of each argument (`AddrSyntax`).
pub mod rr;
pub mod vtep;
pub mod ui;
pub mod ctrl;

use vstd::prelude::*;

verus! {

/// Every character is an ASCII decimal digit, and there is one at least.
pub open spec fn all_digits(s: Seq<char>) -> bool {
    s.len() > 0 && forall|i: int| 0 <= i < s.len() ==> '0' <= #[trigger] s[i] && s[i] <= '9'
}

/// The value of a text of decimal digits.
pub open spec fn digits_value(s: Seq<char>) -> nat
    decreases s.len(),
{
    if s.len() == 0 {
        0
    } else {
        digits_value(s.drop_last()) * 10 + (s.last() as nat - 48) as nat
    }
}

/// The value of an optional `+` followed by decimal digits, if the text is that.
pub open spec fn plain_decimal(s: Seq<char>) -> Option<nat> {
    let d = if s.len() > 0 && s[0] == '+' { s.drop_first() } else { s };
    if all_digits(d) {
        Some(digits_value(d))
    } else {
        None
    }
}

/// The text of the error that `u16::from_str` gives for `s`.
pub uninterp spec fn u16_parse_error(s: Seq<char>) -> Seq<char>;

/// The text of the error that `u32::from_str` gives for `s`.
pub uninterp spec fn u32_parse_error(s: Seq<char>) -> Seq<char>;

/// What reading `s` as a `u16` gives.
pub open spec fn u16_of(s: Seq<char>) -> Result<u16, Seq<char>> {
    match plain_decimal(s) {
        Some(n) if n <= u16::MAX => Ok(n as u16),
        _ => Err(u16_parse_error(s)),
    }
}

/// What reading `s` as a `u32` gives.
pub open spec fn u32_of(s: Seq<char>) -> Result<u32, Seq<char>> {
    match plain_decimal(s) {
        Some(n) if n <= u32::MAX => Ok(n as u32),
        _ => Err(u32_parse_error(s)),
    }
}

/// Calls `u16::from_str` and writes its error with `Display`.
/// Claimed, as the documentation of `from_str_radix` describes: the text is
/// read when it is an optional `+` and ASCII decimal digits whose value fits;
/// otherwise the error's text is `u16_parse_error(s)`, a function of the text.
#[verifier::external_body]
pub(crate) fn parse_u16(s: &str) -> (r: Result<u16, String>)
    ensures
        match r {
            Ok(v) => plain_decimal(s@) == Some(v as nat),
            Err(e) => !(plain_decimal(s@) matches Some(n) && n <= u16::MAX) && e@ == u16_parse_error(s@),
        },
{
    match s.parse::<u16>() {
        Ok(v) => Ok(v),
        Err(e) => Err(e.to_string()),
    }
}

/// Calls `u32::from_str` and writes its error with `Display`.
/// Claimed, as for `parse_u16`: the text is read when it is an optional `+`
/// and ASCII decimal digits whose value fits; otherwise the error's text is
/// `u32_parse_error(s)`.
#[verifier::external_body]
pub(crate) fn parse_u32(s: &str) -> (r: Result<u32, String>)
    ensures
        match r {
            Ok(v) => plain_decimal(s@) == Some(v as nat),
            Err(e) => !(plain_decimal(s@) matches Some(n) && n <= u32::MAX) && e@ == u32_parse_error(s@),
        },
{
    match s.parse::<u32>() {
        Ok(v) => Ok(v),
        Err(e) => Err(e.to_string()),
    }
}

/// What the standard library's address parsers make of one argument: for
/// `Ipv4Addr`, `Ipv6Addr` and `IpAddr` in turn, `None` when the text parses
/// as such an address, or the text of the parser's error.
pub struct AddrSyntax {
    pub ipv4: Option<String>,
    pub ipv6: Option<String>,
    pub ip: Option<String>,
}

pub struct AddrSyntaxView {
    pub ipv4: Option<Seq<char>>,
    pub ipv6: Option<Seq<char>>,
    pub ip: Option<Seq<char>>,
}

/// The view of an optional text.
pub open spec fn opt_view(o: Option<String>) -> Option<Seq<char>> {
    match o {
        Some(s) => Some(s@),
        None => None,
    }
}

impl View for AddrSyntax {
    type V = AddrSyntaxView;

    open spec fn view(&self) -> AddrSyntaxView {
        AddrSyntaxView { ipv4: opt_view(self.ipv4), ipv6: opt_view(self.ipv6), ip: opt_view(self.ip) }
    }
}

/// The views of the address checks of the arguments.
pub open spec fn syntax_views(s: Seq<AddrSyntax>) -> Seq<AddrSyntaxView> {
    Seq::new(s.len(), |i: int| s[i]@)
}

/// The views of a sequence of texts.
pub open spec fn arg_views(s: Seq<String>) -> Seq<Seq<char>> {
    Seq::new(s.len(), |i: int| s[i]@)
}

} // verus!
