//! Wormhole codes, and the mailbox that the two sides of a transfer meet in.

use vstd::prelude::*;

use crate::error::{Error, ErrorView};

verus! {

/// Number of wordlist words in a generated code.
pub const DEFAULT_CODE_LENGTH: usize = 2;

/// The fewest bytes that the password of a code may have.
pub const MIN_PASSWORD_BYTES: usize = 4;

/// Why a text is no wormhole code, carried through unread.
#[verifier::external_type_specification]
#[verifier::external_body]
pub struct ExParseCodeError(magic_wormhole::ParseCodeError);

/// `raw` is a code whose first dash stands at `dash`: digits in front of it that
/// are not all zero, and a password of some length behind it.
pub open spec fn is_code_at(raw: Seq<char>, dash: int) -> bool {
    &&& 0 <= dash < raw.len()
    &&& raw[dash] == '-'
    &&& forall|k: int| 0 <= k < dash ==> '0' <= #[trigger] raw[k] <= '9'
    &&& dash > 0 ==> exists|k: int| 0 <= k < dash && #[trigger] raw[k] != '0'
    &&& vstd::utf8::encode_utf8(raw.skip(dash + 1)).len() >= MIN_PASSWORD_BYTES
}

/// `raw` is a wormhole code, such as `15-foo-bar`.
pub open spec fn is_code(raw: Seq<char>) -> bool {
    exists|dash: int| is_code_at(raw, dash)
}

/// How the mailbox is to be opened.
#[derive(Debug)]
pub enum MailboxRequest {
    /// Claim a fresh nameplate, with a generated password of so many words.
    Create { code_length: usize },
    /// Open the mailbox of a known code. `allocate` claims the nameplate where
    /// nobody holds it; without it, such a nameplate is an error.
    Connect { code: String, allocate: bool },
}

/// A [`MailboxRequest`], with the code as a sequence of characters.
pub enum MailboxRequestView {
    Create { code_length: usize },
    Connect { code: Seq<char>, allocate: bool },
}

impl View for MailboxRequest {
    type V = MailboxRequestView;

    open spec fn view(&self) -> MailboxRequestView {
        match *self {
            MailboxRequest::Create { code_length } => MailboxRequestView::Create { code_length },
            MailboxRequest::Connect { code, allocate } => MailboxRequestView::Connect {
                code: code@,
                allocate,
            },
        }
    }
}

/// The mailbox that a code leads to. A text that is no code is refused, and is
/// repeated in the error.
pub open spec fn meeting_under(raw: Seq<char>, allocate: bool) -> Result<
    MailboxRequestView,
    ErrorView,
> {
    if is_code(raw) {
        Ok(MailboxRequestView::Connect { code: raw, allocate })
    } else {
        Err(ErrorView::InvalidCode(raw))
    }
}

/// The mailbox of a sender: a fresh one where there is no code, else the one of
/// that exact code, claimed if need be.
pub open spec fn sender_mailbox(code: Option<Seq<char>>) -> Result<MailboxRequestView, ErrorView> {
    match code {
        None => Ok(MailboxRequestView::Create { code_length: DEFAULT_CODE_LENGTH }),
        Some(raw) => meeting_under(raw, true),
    }
}

/// The mailbox of a receiver: the one that the sender has claimed.
pub open spec fn receiver_mailbox(code: Seq<char>) -> Result<MailboxRequestView, ErrorView> {
    meeting_under(code, false)
}

/// The model of the result of opening a mailbox.
pub open spec fn request_view(r: Result<MailboxRequest, Error>) -> Result<
    MailboxRequestView,
    ErrorView,
> {
    match r {
        Ok(request) => Ok(request@),
        Err(e) => Err(e@),
    }
}

/// A text without a dash is no code. Where there is one, the part in front of the
/// first dash and the part behind it decide: the one has to be ASCII digits that are
/// not all zero, if there are any, and the other has to have four bytes or more.
pub proof fn a_code_is_a_nameplate_and_a_password(nameplate: Seq<char>, password: Seq<char>)
    requires
        forall|k: int| 0 <= k < nameplate.len() ==> nameplate[k] != '-',
    ensures
        !is_code(nameplate),
        is_code(nameplate + seq!['-'] + password) <==> {
            &&& forall|k: int| 0 <= k < nameplate.len() ==> '0' <= #[trigger] nameplate[k] <= '9'
            &&& nameplate.len() > 0 ==> exists|k: int|
                0 <= k < nameplate.len() && #[trigger] nameplate[k] != '0'
            &&& vstd::utf8::encode_utf8(password).len() >= 4
        },
{
    if is_code(nameplate) {
        let at = choose|dash: int| is_code_at(nameplate, dash);
        assert(nameplate[at] == '-');
    }
    let raw = nameplate + seq!['-'] + password;
    let n = nameplate.len() as int;
    assert(raw[n] == '-');
    assert(raw.skip(n + 1) =~= password);
    assert forall|k: int| 0 <= k < n implies raw[k] == nameplate[k] by {}
    if is_code(raw) {
        let at = choose|dash: int| is_code_at(raw, dash);
        if at < n {
            assert(raw[at] == nameplate[at]);
        } else if at > n {
            assert('0' <= raw[n] <= '9');
        }
        assert(at == n);
        assert forall|k: int| 0 <= k < n implies '0' <= #[trigger] nameplate[k] <= '9' by {
            assert('0' <= raw[k] <= '9');
        }
        if n > 0 {
            let k = choose|k: int| 0 <= k < n && #[trigger] raw[k] != '0';
            assert(nameplate[k] != '0');
        }
    }
    if (forall|k: int| 0 <= k < n ==> '0' <= #[trigger] nameplate[k] <= '9') && (n > 0 ==> exists|
        k: int,
    |
        0 <= k < n && #[trigger] nameplate[k] != '0') && vstd::utf8::encode_utf8(password).len()
        >= 4 {
        if n > 0 {
            let k = choose|k: int| 0 <= k < n && #[trigger] nameplate[k] != '0';
            assert(raw[k] != '0');
        }
        assert(is_code_at(raw, n));
    }
}

/// A sender without a code gets a fresh one of two words. With a code it claims the
/// mailbox of that very code, and a receiver opens the same one without claiming it.
/// A text that is no code is refused on both sides, and named in the error.
pub proof fn codes_lead_to_their_mailbox(raw: Seq<char>)
    ensures
        sender_mailbox(None) == Ok::<MailboxRequestView, ErrorView>(
            MailboxRequestView::Create { code_length: 2 },
        ),
        is_code(raw) ==> {
            &&& sender_mailbox(Some(raw)) == Ok::<MailboxRequestView, ErrorView>(
                MailboxRequestView::Connect { code: raw, allocate: true },
            )
            &&& receiver_mailbox(raw) == Ok::<MailboxRequestView, ErrorView>(
                MailboxRequestView::Connect { code: raw, allocate: false },
            )
        },
        !is_code(raw) ==> {
            &&& sender_mailbox(Some(raw)) == Err::<MailboxRequestView, ErrorView>(
                ErrorView::InvalidCode(raw),
            )
            &&& receiver_mailbox(raw) == Err::<MailboxRequestView, ErrorView>(
                ErrorView::InvalidCode(raw),
            )
        },
{
}

/// `magic_wormhole::Code` as its `FromStr` reads it, written out again.
///
/// Trusted: the text is split at its first dash; the part behind it has to have
/// four bytes, the part in front of it has to be ASCII digits and must not be a
/// zero; the code is the two parts with the dash between them, so its text is
/// `raw`. An empty part in front is let through.
#[verifier::external_body]
fn parse_code(raw: &str) -> (r: Result<String, magic_wormhole::ParseCodeError>)
    ensures
        r is Ok <==> is_code(raw@),
        r matches Ok(code) ==> code@ == raw@,
{
    match raw.parse::<magic_wormhole::Code>() {
        Ok(code) => Ok(code.to_string()),
        Err(e) => Err(e),
    }
}

/// The mailbox under the code `raw`.
fn meet_under(raw: &str, allocate: bool) -> (r: Result<MailboxRequest, Error>)
    ensures
        request_view(r) == meeting_under(raw@, allocate),
{
    match parse_code(raw) {
        Ok(code) => Ok(MailboxRequest::Connect { code, allocate }),
        Err(_) => Err(Error::InvalidCode(raw.to_owned())),
    }
}

/// The mailbox that a sender opens.
pub fn open_to_send(code: Option<&str>) -> (r: Result<MailboxRequest, Error>)
    ensures
        request_view(r) == sender_mailbox(
            match code {
                Some(raw) => Some(raw@),
                None => None,
            },
        ),
        code is None ==> (r matches Ok(MailboxRequest::Create { code_length }) && code_length == 2),
        code matches Some(raw) ==> if is_code(raw@) {
            r matches Ok(MailboxRequest::Connect { code, allocate }) && code@ == raw@ && allocate
        } else {
            r matches Err(Error::InvalidCode(text)) && text@ == raw@
        },
{
    match code {
        None => Ok(MailboxRequest::Create { code_length: DEFAULT_CODE_LENGTH }),
        Some(raw) => meet_under(raw, true),
    }
}

/// The mailbox that a receiver opens.
pub fn open_to_receive(code: &str) -> (r: Result<MailboxRequest, Error>)
    ensures
        request_view(r) == receiver_mailbox(code@),
        if is_code(code@) {
            r matches Ok(MailboxRequest::Connect { code: c, allocate }) && c@ == code@ && !allocate
        } else {
            r matches Err(Error::InvalidCode(text)) && text@ == code@
        },
{
    meet_under(code, false)
}

} // verus!
