//! The records of the run store: a run is created with a fresh id and the
//! current time, written as a row of text columns, and read back from a row
//! only when its id and its timestamp are well formed.  The database itself
//! is the server's.

use vstd::prelude::*;
use crate::agent::MemoryRecord;

verus! {

/// Whether `c` is a hexadecimal digit, either case.
pub open spec fn is_hex(c: char) -> bool {
    ('0' <= c && c <= '9') || ('a' <= c && c <= 'f') || ('A' <= c && c <= 'F')
}

/// Whether `c` is a lowercase hexadecimal digit.
pub open spec fn is_lower_hex(c: char) -> bool {
    ('0' <= c && c <= '9') || ('a' <= c && c <= 'f')
}

/// A hyphen position of the hyphenated UUID form.
pub open spec fn is_uuid_hyphen_position(i: int) -> bool {
    i == 8 || i == 13 || i == 18 || i == 23
}

/// The hyphenated form: 36 characters, hyphens at positions 8, 13, 18 and
/// 23, hexadecimal digits elsewhere.
pub open spec fn is_hyphenated_hex(s: Seq<char>) -> bool {
    &&& s.len() == 36
    &&& forall|i: int|
        #![trigger s[i]]
        0 <= i < 36 ==> if is_uuid_hyphen_position(i) {
            s[i] == '-'
        } else {
            is_hex(s[i])
        }
}

/// The form in which `Display` writes a `Uuid`: hyphenated, in lowercase.
pub open spec fn is_hyphenated_uuid(s: Seq<char>) -> bool {
    &&& s.len() == 36
    &&& forall|i: int|
        #![trigger s[i]]
        0 <= i < 36 ==> if is_uuid_hyphen_position(i) {
            s[i] == '-'
        } else {
            is_lower_hex(s[i])
        }
}

/// A UUID of version 4 (random) in hyphenated lowercase form: the version
/// digit, at position 14, is `4`, and the variant digit, at position 19, is
/// `8`, `9`, `a` or `b` (the RFC 4122 variant).
pub open spec fn is_uuid_v4_text(s: Seq<char>) -> bool {
    &&& is_hyphenated_uuid(s)
    &&& s[14] == '4'
    &&& (s[19] == '8' || s[19] == '9' || s[19] == 'a' || s[19] == 'b')
}

/// Whether an RFC 3339 text begins with a four-digit year: `to_rfc3339`
/// writes years 0 to 9999 as four digits followed by `-`, and any other
/// year with a sign and more digits.
pub open spec fn has_four_digit_year(s: Seq<char>) -> bool {
    s.len() > 4 && s[4] == '-'
}

/// The shape of every text that `to_rfc3339` writes for a UTC time: at
/// least 25 characters (date, `T`, time to the second, offset), ending in
/// the offset `+00:00`.
pub open spec fn is_utc_rfc3339_shape(s: Seq<char>) -> bool {
    &&& s.len() >= 25
    &&& s.subrange(s.len() - 6, s.len() as int) == seq!['+', '0', '0', ':', '0', '0']
}

/// The texts that `uuid::Uuid::parse_str` accepts: 32 hexadecimal digits;
/// the hyphenated form; the hyphenated form in braces; or `urn:uuid:` in any
/// ASCII case followed by the hyphenated form.
pub open spec fn uuid_text_accepted(s: Seq<char>) -> bool {
    ||| (s.len() == 32 && forall|i: int| 0 <= i < 32 ==> #[trigger] is_hex(s[i]))
    ||| is_hyphenated_hex(s)
    ||| (s.len() == 38 && s[0] == '{' && s[37] == '}' && is_hyphenated_hex(s.subrange(1, 37)))
    ||| (s.len() == 45 && crate::text::eq_ignore_ascii_case(s.subrange(0, 9), "urn:uuid:"@)
        && is_hyphenated_hex(s.subrange(9, 45)))
}

/// Whether `chrono::DateTime::parse_from_rfc3339` accepts `s`.
pub uninterp spec fn rfc3339_accepted(s: Seq<char>) -> bool;

/// `uuid::Uuid::new_v4().to_string()`: a fresh random UUID.  The claim is
/// what holds of every outcome: `Display` writes it in hyphenated lowercase
/// form, and `new_v4` fixes its version digit to `4` and its variant digit
/// to one of `8`, `9`, `a`, `b`; the other digits are random and nothing is
/// stated of them.
#[verifier::external_body]
pub(crate) fn new_uuid_text() -> (r: String)
    ensures
        is_uuid_v4_text(r@),
{
    uuid::Uuid::new_v4().to_string()
}

/// `uuid::Uuid::parse_str(s).is_ok()`: the claim is that the parser accepts
/// exactly the four textual forms of `uuid_text_accepted`.
#[verifier::external_body]
fn uuid_parses(s: &str) -> (r: bool)
    ensures
        r == uuid_text_accepted(s@),
{
    uuid::Uuid::parse_str(s).is_ok()
}

/// `chrono::DateTime::parse_from_rfc3339(s).is_ok()`: the claim is that the
/// answer is a function of the text alone, named `rfc3339_accepted`; the
/// RFC 3339 grammar and the calendar checks are not stated.
#[verifier::external_body]
fn rfc3339_parses(s: &str) -> (r: bool)
    ensures
        r == rfc3339_accepted(s@),
{
    chrono::DateTime::parse_from_rfc3339(s).is_ok()
}

/// `chrono::Utc::now().to_rfc3339()`: the current time in RFC 3339 form.
/// Its value depends on the clock and is not stated.  What holds of every
/// reading: the text has the shape of `is_utc_rfc3339_shape` (the offset of
/// UTC is written `+00:00`); and when the year is written with four digits (years up to 9999),
/// `parse_from_rfc3339` accepts the text; a later year is written with a
/// sign and five or more digits, which that parser refuses, so nothing is
/// claimed of it.
#[verifier::external_body]
fn now_rfc3339() -> (r: String)
    ensures
        is_utc_rfc3339_shape(r@),
        has_four_digit_year(r@) ==> rfc3339_accepted(r@),
{
    chrono::Utc::now().to_rfc3339()
}

/// The hyphenated lowercase form is one that the UUID parser accepts.
pub proof fn lemma_hyphenated_uuid_accepted(s: Seq<char>)
    requires
        is_hyphenated_uuid(s),
    ensures
        uuid_text_accepted(s),
{
    assert forall|i: int| 0 <= i < 36 implies if is_uuid_hyphen_position(i) {
        #[trigger] s[i] == '-'
    } else {
        is_hex(s[i])
    } by {
        if !is_uuid_hyphen_position(i) {
            assert(is_lower_hex(s[i]));
        }
    }
    assert(is_hyphenated_hex(s));
}

/// A run as stored: its text columns.
#[derive(Clone, Debug)]
pub struct RunRow {
    pub id: String,
    pub session_id: String,
    pub user_prompt: String,
    pub response: String,
    pub created_at: String,
}

/// One exchange of the agent: an id in UUID form, the session, the prompt,
/// the response, and the RFC 3339 time of its creation.
#[derive(Clone, Debug)]
pub struct AgentRun {
    pub id: String,
    pub session_id: String,
    pub user_prompt: String,
    pub response: String,
    pub created_at: String,
}

/// Why a stored row is not a run.
#[derive(Clone, Copy, Debug, PartialEq, Eq, Structural)]
pub enum RunDecodeError {
    /// The id column is not a UUID.
    InvalidId,
    /// The creation time is not an RFC 3339 date and time.
    InvalidCreatedAt,
}

impl RunDecodeError {
    /// The error's message.
    pub fn message(&self) -> (r: &'static str)
        ensures
            r@ == match self {
                RunDecodeError::InvalidId => "invalid run id"@,
                RunDecodeError::InvalidCreatedAt => "invalid run timestamp"@,
            },
    {
        match self {
            RunDecodeError::InvalidId => "invalid run id",
            RunDecodeError::InvalidCreatedAt => "invalid run timestamp",
        }
    }
}

/// The row in which a run is stored.
pub open spec fn encode_run(run: AgentRun) -> RunRow {
    RunRow {
        id: run.id,
        session_id: run.session_id,
        user_prompt: run.user_prompt,
        response: run.response,
        created_at: run.created_at,
    }
}

/// The run that a stored row holds, or why it holds none: the id is checked
/// first, then the creation time.
pub open spec fn decode_run(row: RunRow) -> Result<AgentRun, RunDecodeError> {
    if !uuid_text_accepted(row.id@) {
        Err(RunDecodeError::InvalidId)
    } else if !rfc3339_accepted(row.created_at@) {
        Err(RunDecodeError::InvalidCreatedAt)
    } else {
        Ok(
            AgentRun {
                id: row.id,
                session_id: row.session_id,
                user_prompt: row.user_prompt,
                response: row.response,
                created_at: row.created_at,
            },
        )
    }
}

impl AgentRun {
    /// Whether the run's id and creation time are well formed.
    pub open spec fn well_formed(&self) -> bool {
        uuid_text_accepted(self.id@) && rfc3339_accepted(self.created_at@)
    }

    /// A new run of the session, with a fresh version 4 id and the current
    /// time.  Whenever the current year is written with four digits, the run
    /// is well formed and its row reads back as the very same run.
    pub fn new(session_id: &str, user_prompt: &str, response: &str) -> (r: AgentRun)
        ensures
            is_uuid_v4_text(r.id@),
            uuid_text_accepted(r.id@),
            is_utc_rfc3339_shape(r.created_at@),
            has_four_digit_year(r.created_at@) ==> rfc3339_accepted(r.created_at@),
            has_four_digit_year(r.created_at@) ==> r.well_formed(),
            has_four_digit_year(r.created_at@) ==> decode_run(encode_run(r)) == Ok::<
                AgentRun,
                RunDecodeError,
            >(r),
            r.session_id@ == session_id@,
            r.user_prompt@ == user_prompt@,
            r.response@ == response@,
    {
        let id = new_uuid_text();
        proof {
            lemma_hyphenated_uuid_accepted(id@);
        }
        AgentRun {
            id,
            session_id: String::from_str(session_id),
            user_prompt: String::from_str(user_prompt),
            response: String::from_str(response),
            created_at: now_rfc3339(),
        }
    }

    /// The row in which the run is stored.
    pub fn into_row(self) -> (r: RunRow)
        ensures
            r == encode_run(self),
    {
        RunRow {
            id: self.id,
            session_id: self.session_id,
            user_prompt: self.user_prompt,
            response: self.response,
            created_at: self.created_at,
        }
    }

    /// The run of a stored row, or why the row holds none.
    pub fn from_row(row: RunRow) -> (r: Result<AgentRun, RunDecodeError>)
        ensures
            r == decode_run(row),
    {
        if !uuid_parses(row.id.as_str()) {
            return Err(RunDecodeError::InvalidId);
        }
        if !rfc3339_parses(row.created_at.as_str()) {
            return Err(RunDecodeError::InvalidCreatedAt);
        }
        Ok(
            AgentRun {
                id: row.id,
                session_id: row.session_id,
                user_prompt: row.user_prompt,
                response: row.response,
                created_at: row.created_at,
            },
        )
    }

    /// The run as the memory tool sees it.
    pub fn memory_record(&self) -> (r: MemoryRecord)
        ensures
            r.created_at@ == self.created_at@,
            r.user_prompt@ == self.user_prompt@,
            r.response@ == self.response@,
    {
        MemoryRecord {
            created_at: self.created_at.clone(),
            user_prompt: self.user_prompt.clone(),
            response: self.response.clone(),
        }
    }
}

/// Reading back the row that a well-formed run is written as gives the same
/// run.
pub proof fn lemma_row_roundtrip(run: AgentRun)
    requires
        run.well_formed(),
    ensures
        decode_run(encode_run(run)) == Ok::<AgentRun, RunDecodeError>(run),
{
}

/// A row is read back as a run exactly when its id and creation time are
/// well formed, and then writing that run gives the same row.
pub proof fn lemma_decode_encode(row: RunRow)
    ensures
        decode_run(row) is Ok <==> (uuid_text_accepted(row.id@) && rfc3339_accepted(
            row.created_at@,
        )),
        decode_run(row) matches Ok(run) ==> encode_run(run) == row && run.well_formed(),
{
}

} // verus!
