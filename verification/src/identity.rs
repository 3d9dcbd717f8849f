//! The report of the AWS caller identity (account and user ARN) that the
//! command-line tool prints, as plain text or as JSON.

use vstd::prelude::*;

verus! {

/// How the caller identity is printed.
#[derive(Clone, Copy, Debug, PartialEq, Eq, Structural)]
pub enum OutputType {
    /// A JSON object.
    Json,
    /// Two `name = value` lines.
    String,
}

#[verifier::external_type_specification]
#[verifier::external_body]
pub struct ExJsonError(serde_json::Error);

/// A hexadecimal digit in lowercase, for `0 <= n < 16`.
pub open spec fn hex_digit(n: nat) -> char {
    if n < 10 {
        (n + 48) as char
    } else {
        (n + 87) as char
    }
}

/// How serde_json writes one character inside a JSON string: quote and
/// backslash escaped, the control characters that have a short escape
/// with it, the other control characters as `\u00xx`, all else as is.
pub open spec fn json_escaped_char(c: char) -> Seq<char> {
    if c == '"' {
        seq!['\\', '"']
    } else if c == '\\' {
        seq!['\\', '\\']
    } else if c == '\x08' {
        seq!['\\', 'b']
    } else if c == '\t' {
        seq!['\\', 't']
    } else if c == '\n' {
        seq!['\\', 'n']
    } else if c == '\x0c' {
        seq!['\\', 'f']
    } else if c == '\r' {
        seq!['\\', 'r']
    } else if (c as u32) < 32 {
        seq!['\\', 'u', '0', '0', hex_digit((c as u32 / 16) as nat), hex_digit((c as u32 % 16) as nat)]
    } else {
        seq![c]
    }
}

/// The characters of a string with each escaped as serde_json does.
pub open spec fn json_escaped(s: Seq<char>) -> Seq<char>
    decreases s.len(),
{
    if s.len() == 0 {
        Seq::empty()
    } else {
        json_escaped_char(s[0]) + json_escaped(s.drop_first())
    }
}

/// The value of a hexadecimal digit, either case (0 for any other character).
pub open spec fn hex_value(c: char) -> nat {
    if '0' <= c && c <= '9' {
        (c as nat - 48) as nat
    } else if 'a' <= c && c <= 'f' {
        (c as nat - 87) as nat
    } else if 'A' <= c && c <= 'F' {
        (c as nat - 55) as nat
    } else {
        0
    }
}

pub open spec fn is_hex_digit(c: char) -> bool {
    ('0' <= c && c <= '9') || ('a' <= c && c <= 'f') || ('A' <= c && c <= 'F')
}

/// The character that a two-character JSON escape `\e` stands for.
pub open spec fn short_unescape(e: char) -> Option<char> {
    if e == '"' {
        Some('"')
    } else if e == '\\' {
        Some('\\')
    } else if e == '/' {
        Some('/')
    } else if e == 'b' {
        Some('\x08')
    } else if e == 'f' {
        Some('\x0c')
    } else if e == 'n' {
        Some('\n')
    } else if e == 'r' {
        Some('\r')
    } else if e == 't' {
        Some('\t')
    } else {
        None
    }
}

/// A reader of JSON string literals, as the JSON grammar defines them: it
/// reads the text that follows an opening quote up to the closing quote,
/// decoding escapes, and gives the string read and how many characters it
/// consumed, closing quote included; `None` when the text is no such literal.
pub open spec fn read_json_string_body(t: Seq<char>) -> Option<(Seq<char>, nat)>
    decreases t.len(),
{
    if t.len() == 0 {
        None
    } else if t[0] == '"' {
        Some((Seq::empty(), 1))
    } else if t[0] == '\\' {
        if t.len() < 2 {
            None
        } else if t[1] == 'u' {
            if t.len() < 6 || !(is_hex_digit(t[2]) && is_hex_digit(t[3]) && is_hex_digit(t[4])
                && is_hex_digit(t[5])) {
                None
            } else {
                let code = 4096 * hex_value(t[2]) + 256 * hex_value(t[3]) + 16 * hex_value(t[4])
                    + hex_value(t[5]);
                match read_json_string_body(t.skip(6)) {
                    Some((s, n)) => Some((seq![(code as u32) as char] + s, n + 6)),
                    None => None,
                }
            }
        } else {
            match short_unescape(t[1]) {
                Some(c) => match read_json_string_body(t.skip(2)) {
                    Some((s, n)) => Some((seq![c] + s, n + 2)),
                    None => None,
                },
                None => None,
            }
        }
    } else {
        match read_json_string_body(t.skip(1)) {
            Some((s, n)) => Some((seq![t[0]] + s, n + 1)),
            None => None,
        }
    }
}

proof fn lemma_hex_digit_value(n: nat)
    requires
        n < 16,
    ensures
        is_hex_digit(hex_digit(n)),
        hex_value(hex_digit(n)) == n,
{
}

/// Escaping loses nothing: reading the escaped text of any string back as a
/// JSON string literal gives that string, and the reading stops exactly at
/// the quote that closes it, whatever follows.
pub proof fn lemma_json_escape_reads_back(s: Seq<char>, rest: Seq<char>)
    ensures
        read_json_string_body(json_escaped(s) + seq!['"'] + rest) == Some(
            (s, json_escaped(s).len() + 1),
        ),
    decreases s.len(),
{
    let t = json_escaped(s) + seq!['"'] + rest;
    if s.len() == 0 {
        assert(t =~= seq!['"'] + rest);
    } else {
        let c = s[0];
        let e = json_escaped_char(c);
        let tail = json_escaped(s.drop_first()) + seq!['"'] + rest;
        lemma_json_escape_reads_back(s.drop_first(), rest);
        assert(t =~= e + tail);
        assert(t.skip(e.len() as int) =~= tail);
        assert(seq![c] + s.drop_first() =~= s);
        if (c as u32) < 32 && !(c == '\x08' || c == '\t' || c == '\n' || c == '\x0c' || c
            == '\r') {
            let u = c as u32;
            lemma_hex_digit_value((u / 16) as nat);
            lemma_hex_digit_value((u % 16) as nat);
            assert(t[0] == '\\');
            assert(t[1] == 'u');
            assert(t[2] == '0' && t[3] == '0');
            assert(t[4] == hex_digit((u / 16) as nat));
            assert(t[5] == hex_digit((u % 16) as nat));
            assert(16 * (u / 16) + u % 16 == u);
            assert(e.len() == 6);
            let code = 4096 * hex_value(t[2]) + 256 * hex_value(t[3]) + 16 * hex_value(t[4])
                + hex_value(t[5]);
            assert(code == u);
            vstd::utf8::char_u32_cast(c, u);
            assert(((code as u32) as char) == c);
        } else if c == '"' || c == '\\' || c == '\x08' || c == '\t' || c == '\n' || c
            == '\x0c' || c == '\r' {
            assert(t[0] == '\\');
            assert(t[1] == e[1]);
            assert(e.len() == 2);
            assert(short_unescape(e[1]) == Some(c));
        } else {
            assert(e.len() == 1);
            assert(t[0] == c);
        }
    }
}

/// A string written as a JSON string literal, quotes included.
pub open spec fn json_string_text(s: Seq<char>) -> Seq<char> {
    seq!['"'] + json_escaped(s) + seq!['"']
}

/// Calls `serde_json::to_string` on a string slice. Claimed: the result is
/// `Ok`, holding the slice between double quotes with each character escaped
/// as `json_escaped_char` says (the escape table of serde_json's serializer);
/// the serializer writes into a `Vec<u8>`, which cannot fail.
#[verifier::external_body]
fn json_string(s: &str) -> (res: Result<String, serde_json::Error>)
    ensures
        res is Ok,
        res matches Ok(text) ==> text@ == json_string_text(s@),
{
    serde_json::to_string(s)
}

/// The text of an identity field that may be missing: a missing one is empty.
pub open spec fn field_text(field: Option<&str>) -> Seq<char> {
    match field {
        Some(s) => s@,
        None => Seq::empty(),
    }
}

/// The plain-text report: the account line, then the user ARN line.
pub open spec fn text_report(account: Seq<char>, arn: Seq<char>) -> Seq<char> {
    "AccountId = "@ + account + "\nUserARN = "@ + arn + "\n"@
}

/// The JSON report: one object, keys in sorted order as serde_json's map
/// writes them, then a line end.
pub open spec fn json_report(account: Seq<char>, arn: Seq<char>) -> Seq<char> {
    "{\"UserARN\":"@ + json_string_text(arn) + ",\"accountId\":"@ + json_string_text(account)
        + "}\n"@
}

/// The report that the tool prints for a caller identity.
pub open spec fn identity_report(account: Seq<char>, arn: Seq<char>, output_type: OutputType) -> Seq<
    char,
> {
    match output_type {
        OutputType::String => text_report(account, arn),
        OutputType::Json => json_report(account, arn),
    }
}

/// Formats the caller identity that the STS service returned; a missing
/// account or ARN is printed as an empty string.
pub fn format_caller_identity(account: Option<&str>, arn: Option<&str>, output_type: OutputType) -> (res:
    String)
    ensures
        res@ == identity_report(field_text(account), field_text(arn), output_type),
        output_type == OutputType::String ==> res@ == "AccountId = "@ + field_text(account) + "\n"@
            + "UserARN = "@ + field_text(arn) + "\n"@,
        output_type == OutputType::Json ==> res@ == "{\"UserARN\":\""@ + json_escaped(
            field_text(arn),
        ) + "\",\"accountId\":\""@ + json_escaped(field_text(account)) + "\"}\n"@,
{
    proof {
        lemma_json_report_reads_back(field_text(account), field_text(arn));
        lemma_text_report_lines(field_text(account), field_text(arn));
    }
    let account: &str = match account {
        Some(a) => a,
        None => "",
    };
    let arn: &str = match arn {
        Some(a) => a,
        None => "",
    };
    proof {
        reveal_strlit("");
    }
    match output_type {
        OutputType::String => {
            let mut out = String::from_str("AccountId = ");
            out.append(account);
            out.append("\nUserARN = ");
            out.append(arn);
            out.append("\n");
            out
        },
        OutputType::Json => {
            let arn_json = match json_string(arn) {
                Ok(t) => t,
                Err(_) => String::new(),
            };
            let account_json = match json_string(account) {
                Ok(t) => t,
                Err(_) => String::new(),
            };
            let mut out = String::from_str("{\"UserARN\":");
            out.append(arn_json.as_str());
            out.append(",\"accountId\":");
            out.append(account_json.as_str());
            out.append("}\n");
            out
        },
    }
}

/// The JSON report is one object whose two values are JSON string literals:
/// a quote, the escaped characters of the ARN (of the account), a quote;
/// and each of them reads back, as a JSON string, to exactly the ARN (the
/// account), whatever characters they hold.
pub proof fn lemma_json_report_reads_back(account: Seq<char>, arn: Seq<char>)
    ensures
        json_report(account, arn) == "{\"UserARN\":\""@ + json_escaped(arn) + "\",\"accountId\":\""@
            + json_escaped(account) + "\"}\n"@,
        read_json_string_body(json_escaped(arn) + "\",\"accountId\":\""@ + json_escaped(account)
            + "\"}\n"@) == Some((arn, json_escaped(arn).len() + 1)),
        read_json_string_body(json_escaped(account) + "\"}\n"@) == Some(
            (account, json_escaped(account).len() + 1),
        ),
{
    reveal_strlit("{\"UserARN\":\"");
    reveal_strlit("{\"UserARN\":");
    reveal_strlit("\",\"accountId\":\"");
    reveal_strlit(",\"accountId\":");
    reveal_strlit("\"}\n");
    reveal_strlit("}\n");
    let ea = json_escaped(arn);
    let ec = json_escaped(account);
    assert("{\"UserARN\":\""@ =~= "{\"UserARN\":"@ + seq!['"']);
    assert("\",\"accountId\":\""@ =~= seq!['"'] + ",\"accountId\":"@ + seq!['"']);
    assert("\"}\n"@ =~= seq!['"'] + "}\n"@);
    assert(json_report(account, arn) =~= "{\"UserARN\":\""@ + ea + "\",\"accountId\":\""@ + ec
        + "\"}\n"@);
    let rest_arn = ",\"accountId\":"@ + seq!['"'] + ec + "\"}\n"@;
    lemma_json_escape_reads_back(arn, rest_arn);
    assert(ea + "\",\"accountId\":\""@ + ec + "\"}\n"@ =~= ea + seq!['"'] + rest_arn);
    lemma_json_escape_reads_back(account, "}\n"@);
    assert(ec + "\"}\n"@ =~= ec + seq!['"'] + "}\n"@);
}

/// The text report is the account line then the user ARN line, each value
/// written as it is.
pub proof fn lemma_text_report_lines(account: Seq<char>, arn: Seq<char>)
    ensures
        text_report(account, arn) == "AccountId = "@ + account + "\n"@ + "UserARN = "@ + arn
            + "\n"@,
{
    reveal_strlit("\nUserARN = ");
    reveal_strlit("\n");
    reveal_strlit("UserARN = ");
    assert("\nUserARN = "@ =~= "\n"@ + "UserARN = "@);
    assert(text_report(account, arn) =~= "AccountId = "@ + account + "\n"@ + "UserARN = "@ + arn
        + "\n"@);
}

} // verus!
