//! Database connection configuration: assembling the connection string,
//! redacting it for logs, and parsing numeric settings with defaults.

use vstd::prelude::*;
use vstd::string::{StrSliceExecFns, StringExecFns};

use crate::text::{find_char, has_char, has_substring, contains_substr, rfind_char};

verus! {

/// Connection settings read at startup.
pub struct DatabaseSettings {
    pub database_url: String,
    pub max_connections: u32,
    pub min_connections: u32,
    pub connect_timeout_secs: u64,
    pub idle_timeout_secs: u64,
    pub max_lifetime_secs: u64,
}

/// The connection string with an `sslmode` parameter appended unless one
/// is already present: after `&` when a query string exists, after `?`
/// otherwise.
pub open spec fn url_with_ssl_mode(url: Seq<char>, mode: Seq<char>) -> Seq<char> {
    if has_substring(url, "sslmode="@) {
        url
    } else if has_char(url, '?') {
        url + "&sslmode="@ + mode
    } else {
        url + "?sslmode="@ + mode
    }
}

/// The connection string as it is safe to log: everything before the
/// first `@` is reduced to the bare user name and a masked password, so
/// the password appears nowhere in the result. The user name is the part
/// of the prefix after its last `/` (or `user` when there is none), cut
/// at its first `:` — the password starts there. A string without `@` is
/// masked entirely.
pub open spec fn redacted_url(url: Seq<char>) -> Seq<char> {
    if url.index_of_first('@') is Some {
        let a = url.index_of_first('@')->0;
        let prefix = url.subrange(0, a);
        let host = url.subrange(a + 1, url.len() as int);
        let base = if prefix.index_of_last('/') is Some {
            prefix.subrange(prefix.index_of_last('/')->0 + 1, prefix.len() as int)
        } else {
            "user"@
        };
        let user = if base.index_of_first(':') is Some {
            base.subrange(0, base.index_of_first(':')->0)
        } else {
            base
        };
        "postgresql://"@ + user + ":***@"@ + host
    } else {
        "postgresql://***"@
    }
}

/// Add the configured `sslmode` to a connection string that lacks one.
pub fn with_ssl_mode(database_url: &str, ssl_mode: &str) -> (r: String)
    ensures
        r@ == url_with_ssl_mode(database_url@, ssl_mode@),
{
    if contains_substr(database_url, "sslmode=") {
        return database_url.to_owned();
    }
    let mut out = database_url.to_owned();
    if find_char(database_url, '?').is_some() {
        out.append("&sslmode=");
    } else {
        out.append("?sslmode=");
    }
    out.append(ssl_mode);
    out
}

/// Mask the credential part of a connection string for logging.
pub fn redact_connection_string(database_url: &str) -> (r: String)
    ensures
        r@ == redacted_url(database_url@),
{
    proof {
        database_url@.index_of_first_ensures('@');
    }
    let n = database_url.unicode_len();
    match find_char(database_url, '@') {
        Some(a) => {
            proof {
                let spec_a = database_url@.index_of_first('@')->0;
                assert(database_url@.index_of_first('@') is Some);
                assert(spec_a == a as int) by {
                    if spec_a < a as int {
                        assert(database_url@[spec_a] != '@');
                    }
                    if spec_a > a as int {
                        assert(database_url@[a as int] != '@');
                    }
                }
            }
            let prefix = database_url.substring_char(0, a);
            let host = database_url.substring_char(a + 1, n);
            proof {
                prefix@.index_of_last_ensures('/');
            }
            let base: &str = match rfind_char(prefix, '/') {
                Some(sl) => {
                    proof {
                        let spec_s = prefix@.index_of_last('/')->0;
                        assert(prefix@.index_of_last('/') is Some);
                        assert(spec_s == sl as int) by {
                            if spec_s < sl as int {
                                assert(prefix@[sl as int] != '/');
                            }
                            if spec_s > sl as int {
                                assert(prefix@[spec_s] != '/');
                            }
                        }
                    }
                    let prefix_len = prefix.unicode_len();
                    prefix.substring_char(sl + 1, prefix_len)
                },
                None => "user",
            };
            proof {
                base@.index_of_first_ensures(':');
            }
            let user: &str = match find_char(base, ':') {
                Some(c) => {
                    proof {
                        let spec_c = base@.index_of_first(':')->0;
                        assert(base@.index_of_first(':') is Some);
                        assert(spec_c == c as int) by {
                            if spec_c < c as int {
                                assert(base@[spec_c] != ':');
                            }
                            if spec_c > c as int {
                                assert(base@[c as int] != ':');
                            }
                        }
                    }
                    base.substring_char(0, c)
                },
                None => base,
            };
            let mut out = String::from_str("postgresql://");
            out.append(user);
            out.append(":***@");
            out.append(host);
            out
        },
        None => String::from_str("postgresql://***"),
    }
}

impl DatabaseSettings {
    /// Assemble validated settings from the raw connection string, the
    /// ssl mode and the numeric knobs; the pool bounds must be ordered.
    pub fn from_values(
        raw_url: &str,
        ssl_mode: &str,
        max_connections: u32,
        min_connections: u32,
        connect_timeout_secs: u64,
        idle_timeout_secs: u64,
        max_lifetime_secs: u64,
    ) -> (r: Result<DatabaseSettings, String>)
        ensures
            r is Ok <==> min_connections <= max_connections,
            match r {
                Ok(s) => {
                    &&& s.database_url@ == url_with_ssl_mode(raw_url@, ssl_mode@)
                    &&& s.max_connections == max_connections
                    &&& s.min_connections == min_connections
                    &&& s.connect_timeout_secs == connect_timeout_secs
                    &&& s.idle_timeout_secs == idle_timeout_secs
                    &&& s.max_lifetime_secs == max_lifetime_secs
                },
                Err(m) => m@
                    == "DATABASE_MIN_CONNECTIONS cannot be greater than DATABASE_MAX_CONNECTIONS"@,
            },
    {
        if min_connections > max_connections {
            return Err(
                String::from_str(
                    "DATABASE_MIN_CONNECTIONS cannot be greater than DATABASE_MAX_CONNECTIONS",
                ),
            );
        }
        Ok(
            DatabaseSettings {
                database_url: with_ssl_mode(raw_url, ssl_mode),
                max_connections,
                min_connections,
                connect_timeout_secs,
                idle_timeout_secs,
                max_lifetime_secs,
            },
        )
    }

    /// The connection string, safe for logs: the password is masked.
    pub fn redacted_database_url(&self) -> (r: String)
        ensures
            r@ == redacted_url(self.database_url@),
    {
        redact_connection_string(self.database_url.as_str())
    }
}

/// A decimal digit.
pub open spec fn is_digit(c: char) -> bool {
    48 <= c as u32 <= 57
}

/// The numeric value of a digit character.
pub open spec fn digit_val(c: char) -> int {
    (c as u32) - 48
}

/// Every character is a decimal digit.
pub open spec fn all_digits(s: Seq<char>) -> bool {
    forall|i: int| 0 <= i < s.len() ==> is_digit(#[trigger] s[i])
}

/// The number that a digit string denotes, most significant digit first.
pub open spec fn digits_val(s: Seq<char>) -> int
    decreases s.len(),
{
    if s.len() == 0 {
        0
    } else {
        digits_val(s.drop_last()) * 10 + digit_val(s.last())
    }
}

/// The digits of a numeric literal: an optional leading `+` is dropped.
pub open spec fn numeric_body(s: Seq<char>) -> Seq<char> {
    if s.len() > 0 && s[0] == '+' {
        s.drop_first()
    } else {
        s
    }
}

/// A string that denotes an unsigned number no greater than `bound`:
/// an optional `+`, then at least one digit, with the value in range.
pub open spec fn parses_to_unsigned(s: Seq<char>, bound: int) -> bool {
    numeric_body(s).len() > 0 && all_digits(numeric_body(s)) && digits_val(numeric_body(s))
        <= bound
}

proof fn lemma_digits_val_step(d: Seq<char>, k: int)
    requires
        0 <= k < d.len(),
    ensures
        digits_val(d.subrange(0, k + 1)) == digits_val(d.subrange(0, k)) * 10 + digit_val(d[k]),
{
    let s1 = d.subrange(0, k + 1);
    assert(s1.drop_last() =~= d.subrange(0, k));
    assert(s1.last() == d[k]);
}

proof fn lemma_digits_val_nonneg(d: Seq<char>)
    requires
        all_digits(d),
    ensures
        digits_val(d) >= 0,
    decreases d.len(),
{
    if d.len() > 0 {
        assert(all_digits(d.drop_last()));
        lemma_digits_val_nonneg(d.drop_last());
    }
}

proof fn lemma_digits_val_grows(d: Seq<char>, k: int)
    requires
        0 <= k <= d.len(),
        all_digits(d),
    ensures
        digits_val(d) >= digits_val(d.subrange(0, k)),
    decreases d.len() - k,
{
    if k == d.len() {
        assert(d.subrange(0, d.len() as int) =~= d);
    } else {
        lemma_digits_val_step(d, k);
        assert(all_digits(d.subrange(0, k)));
        lemma_digits_val_nonneg(d.subrange(0, k));
        lemma_digits_val_grows(d, k + 1);
    }
}

/// Parse an unsigned decimal with an optional leading `+`, failing on an
/// empty body, a non-digit, or overflow.
fn parse_u64_digits(s: &str) -> (r: Option<u64>)
    ensures
        r is Some <==> parses_to_unsigned(s@, u64::MAX as int),
        r is Some ==> r->0 == digits_val(numeric_body(s@)),
{
    let n = s.unicode_len();
    let mut off: usize = 0;
    if n > 0 && s.get_char(0) == '+' {
        off = 1;
    }
    if off == n {
        assert(numeric_body(s@).len() == 0);
        return None;
    }
    let ghost d = numeric_body(s@);
    proof {
        assert(d =~= s@.subrange(off as int, n as int));
    }
    let mut acc: u64 = 0;
    let mut i: usize = off;
    while i < n
        invariant
            off <= i <= n,
            n == s@.len(),
            off == 0 || off == 1,
            d == numeric_body(s@),
            d =~= s@.subrange(off as int, n as int),
            d.len() == n - off,
            all_digits(d.subrange(0, i - off)),
            acc == digits_val(d.subrange(0, i - off)),
        decreases n - i,
    {
        let c = s.get_char(i);
        let u = c as u32;
        proof {
            assert(d[i - off] == s@[i as int]);
        }
        if u < 48 || u > 57 {
            assert(!all_digits(d));
            return None;
        }
        let dv = u - 48;
        if acc > (u64::MAX - dv as u64) / 10 {
            proof {
                lemma_digits_val_step(d, i - off);
                assert(digits_val(d.subrange(0, i - off + 1)) > u64::MAX) by {
                    assert(acc * 10 + dv >= (((u64::MAX - dv as u64) / 10) + 1) * 10 + dv
                        > u64::MAX) by (nonlinear_arith)
                        requires
                            acc > (u64::MAX - dv as u64) / 10,
                            acc * 10 + dv == digits_val(d.subrange(0, i - off + 1)),
                            0 <= dv <= 9,
                    ;
                }
                if all_digits(d) {
                    lemma_digits_val_grows(d, i - off + 1);
                    assert(digits_val(d) > u64::MAX);
                }
            }
            return None;
        }
        proof {
            assert(acc * 10 + dv <= u64::MAX) by (nonlinear_arith)
                requires
                    acc <= (u64::MAX - dv as u64) / 10,
                    0 <= dv <= 9,
            ;
            lemma_digits_val_step(d, i - off);
        }
        acc = acc * 10 + dv as u64;
        i = i + 1;
        proof {
            assert(all_digits(d.subrange(0, i - off))) by {
                assert(forall|k: int|
                    0 <= k < i - off ==> d.subrange(0, i as int - off)[k] == #[trigger] d[k]);
            }
        }
    }
    proof {
        assert(d.subrange(0, n - off) =~= d);
    }
    Some(acc)
}

/// Read a `u32` setting: absent means the default; a present value must
/// be a decimal number in range, else the error names the key and the
/// offending value.
pub fn parse_u32_with_default(key: &str, raw: Option<&str>, default: u32) -> (r: Result<
    u32,
    String,
>)
    ensures
        raw is None ==> r == Ok::<u32, String>(default),
        raw is Some ==> match r {
            Ok(v) => parses_to_unsigned(raw->0@, u32::MAX as int) && v == digits_val(
                numeric_body(raw->0@),
            ),
            Err(m) => !parses_to_unsigned(raw->0@, u32::MAX as int) && m@ == "invalid value for "@
                + key@ + ": "@ + raw->0@,
        },
{
    match raw {
        Some(text) => {
            let parsed = parse_u64_digits(text);
            match parsed {
                Some(v) if v <= u32::MAX as u64 => Ok(v as u32),
                _ => {
                    proof {
                        if parsed is Some {
                            assert(digits_val(numeric_body(text@)) > u32::MAX);
                        }
                    }
                    let mut m = String::from_str("invalid value for ");
                    m.append(key);
                    m.append(": ");
                    m.append(text);
                    Err(m)
                },
            }
        },
        None => Ok(default),
    }
}

/// Read a `u64` setting: absent means the default; a present value must
/// be a decimal number in range, else the error names the key and the
/// offending value.
pub fn parse_u64_with_default(key: &str, raw: Option<&str>, default: u64) -> (r: Result<
    u64,
    String,
>)
    ensures
        raw is None ==> r == Ok::<u64, String>(default),
        raw is Some ==> match r {
            Ok(v) => parses_to_unsigned(raw->0@, u64::MAX as int) && v == digits_val(
                numeric_body(raw->0@),
            ),
            Err(m) => !parses_to_unsigned(raw->0@, u64::MAX as int) && m@ == "invalid value for "@
                + key@ + ": "@ + raw->0@,
        },
{
    match raw {
        Some(text) => {
            match parse_u64_digits(text) {
                Some(v) => Ok(v),
                None => {
                    let mut m = String::from_str("invalid value for ");
                    m.append(key);
                    m.append(": ");
                    m.append(text);
                    Err(m)
                },
            }
        },
        None => Ok(default),
    }
}

} // verus!
