//! The bank-data aggregator.
//!
//! Talking to the aggregator over the network is left to the caller. Here
//! is what surrounds the talk: taking an access address apart and checking
//! it, building the addresses to ask, reading what a status means, and
//! turning what the aggregator reports into records.

use vstd::prelude::*;
use vstd::string::*;
use crate::amount::Amount;
use crate::calendar::{day_of_second, Timestamp};
use crate::domain::{Account, ServiceResult, Transaction};
use crate::ident::{fresh_id, NIL_ID};
use crate::string_map::StringMap;
use crate::text::{
    chars_of,
    ends_with_text,
    integer_text,
    integer_to_text,
    opt_text,
    text_ends_with,
};

verus! {

/// The aggregator as a source.
pub struct SimpleFINProvider;

/// The accounts the aggregator reported, with its warnings.
#[derive(Debug)]
pub struct SimpleFINAccountsResponse {
    pub accounts: Vec<Account>,
    pub errors: Vec<String>,
}

/// The transactions the aggregator reported, each with the aggregator's
/// name for its account, and its warnings.
#[derive(Debug)]
pub struct SimpleFINTransactionsResponse {
    pub transactions: Vec<(String, Transaction)>,
    pub errors: Vec<String>,
}

/// An access address taken apart: the address without its credentials,
/// and the credentials.
#[derive(Clone, Debug)]
pub struct AccessUrlParts {
    pub clean_url: String,
    pub username: String,
    pub password: String,
}

/// What the `url` crate reads from an address: scheme, host, user name,
/// password and path; or nothing where the text is no address.
pub uninterp spec fn url_parts(s: Seq<char>) -> Option<
    (Seq<char>, Option<Seq<char>>, Seq<char>, Option<Seq<char>>, Seq<char>),
>;

/// The bytes that a text stands for in standard base64, or nothing where
/// the text is no base64.
pub uninterp spec fn base64_decoded(s: Seq<char>) -> Option<Seq<u8>>;

/// What taking an access address apart yields: the parts, or the reason
/// why the address is refused.
pub open spec fn spec_parse_access_url(s: Seq<char>) -> Result<
    (Seq<char>, Seq<char>, Seq<char>),
    Seq<char>,
> {
    if s.len() == 0 {
        Err("accessUrl is required"@)
    } else {
        match url_parts(s) {
            None => Err("Invalid URL format"@),
            Some((scheme, host, username, password, path)) => if scheme != "https"@ {
                Err("accessUrl must use HTTPS"@)
            } else {
                match host {
                    None => Err("Invalid URL: no host"@),
                    Some(h) => if !ends_with_text(h, "simplefin.org"@) {
                        Err("accessUrl must be from simplefin.org domain"@)
                    } else {
                        match password {
                            None => Err("accessUrl must contain password"@),
                            Some(p) => if username.len() == 0 {
                                Err("accessUrl must contain username"@)
                            } else {
                                Ok((scheme + "://"@ + h + path, username, p))
                            },
                        }
                    },
                }
            },
        }
    }
}

/// What a status of the aggregator's answer means: nothing for 200, and a
/// message for every other status.
pub open spec fn spec_status_error(status: u16) -> Option<Seq<char>> {
    if status == 403 {
        Some(
            "SimpleFIN authentication failed. Your access token may be invalid or revoked. Please reset your SimpleFIN credentials at https://beta-bridge.simplefin.org/"@,
        )
    } else if status == 402 {
        Some(
            "SimpleFIN subscription payment required. Please check your SimpleFIN account at https://beta-bridge.simplefin.org/"@,
        )
    } else if status != 200 {
        Some("SimpleFIN API error: HTTP "@ + integer_text(status as int))
    } else {
        None
    }
}

/// The address to ask for accounts and transactions, with the range asked
/// for as its query.
pub open spec fn spec_accounts_url(clean_url: Seq<char>, start: Option<i64>, end: Option<i64>) -> Seq<
    char,
> {
    let base = clean_url + "/accounts"@;
    match (start, end) {
        (Some(s), Some(e)) => base + "?"@ + "start-date="@ + integer_text(s as int) + "&"@
            + "end-date="@ + integer_text(e as int),
        (Some(s), None) => base + "?"@ + "start-date="@ + integer_text(s as int),
        (None, Some(e)) => base + "?"@ + "end-date="@ + integer_text(e as int),
        (None, None) => base,
    }
}

/// Takes an access address apart and checks it: it must be an `https`
/// address of the `simplefin.org` domain that carries a user name and a
/// password.
pub fn parse_access_url(access_url: &str) -> (r: Result<AccessUrlParts, String>)
    ensures
        match r {
            Ok(parts) => spec_parse_access_url(access_url@) == Ok::<
                (Seq<char>, Seq<char>, Seq<char>),
                Seq<char>,
            >((parts.clean_url@, parts.username@, parts.password@)),
            Err(e) => spec_parse_access_url(access_url@) == Err::<
                (Seq<char>, Seq<char>, Seq<char>),
                Seq<char>,
            >(e@),
        },
{
    if access_url.unicode_len() == 0 {
        return Err("accessUrl is required".to_owned());
    }
    let (scheme, host, username, password, path) = match split_url(access_url) {
        Some(parts) => parts,
        None => {
            return Err("Invalid URL format".to_owned());
        },
    };
    if !(scheme == "https".to_owned()) {
        return Err("accessUrl must use HTTPS".to_owned());
    }
    let host = match host {
        Some(h) => h,
        None => {
            return Err("Invalid URL: no host".to_owned());
        },
    };
    if !text_ends_with(&chars_of(host.as_str()), &chars_of("simplefin.org")) {
        return Err("accessUrl must be from simplefin.org domain".to_owned());
    }
    let password = match password {
        Some(p) => p,
        None => {
            return Err("accessUrl must contain password".to_owned());
        },
    };
    if username.as_str().unicode_len() == 0 {
        return Err("accessUrl must contain username".to_owned());
    }
    let mut clean_url = scheme;
    clean_url.append("://");
    clean_url.append(host.as_str());
    clean_url.append(path.as_str());
    Ok(AccessUrlParts { clean_url, username, password })
}

/// What a status of the aggregator's answer means.
pub fn status_error(status: u16) -> (r: Option<String>)
    ensures
        opt_text(r) == spec_status_error(status),
{
    if status == 403 {
        Some(
            "SimpleFIN authentication failed. Your access token may be invalid or revoked. Please reset your SimpleFIN credentials at https://beta-bridge.simplefin.org/".to_owned(),
        )
    } else if status == 402 {
        Some(
            "SimpleFIN subscription payment required. Please check your SimpleFIN account at https://beta-bridge.simplefin.org/".to_owned(),
        )
    } else if status != 200 {
        let mut message = "SimpleFIN API error: HTTP ".to_owned();
        message.append(integer_to_text(status as i64).as_str());
        Some(message)
    } else {
        None
    }
}

/// The address to ask for accounts and transactions.
pub fn accounts_url(parts: &AccessUrlParts, start: Option<i64>, end: Option<i64>) -> (r: String)
    ensures
        r@ == spec_accounts_url(parts.clean_url@, start, end),
{
    let mut url = parts.clean_url.clone();
    url.append("/accounts");
    match start {
        Some(s) => {
            url.append("?");
            url.append("start-date=");
            url.append(integer_to_text(s).as_str());
            match end {
                Some(e) => {
                    url.append("&");
                    url.append("end-date=");
                    url.append(integer_to_text(e).as_str());
                },
                None => {},
            }
        },
        None => {
            match end {
                Some(e) => {
                    url.append("?");
                    url.append("end-date=");
                    url.append(integer_to_text(e).as_str());
                },
                None => {},
            }
        },
    }
    url
}

/// What a setup token stands for: the address that its base64 is the
/// UTF-8 encoding of, or the reason why it stands for none.
pub open spec fn spec_claim_url(setup_token: Seq<char>) -> Result<Seq<char>, Seq<char>> {
    if setup_token.len() == 0 {
        Err("setupToken is required for SimpleFIN integration"@)
    } else {
        match base64_decoded(setup_token) {
            Some(bytes) => if vstd::utf8::valid_utf8(bytes) {
                Ok(vstd::utf8::decode_utf8(bytes))
            } else {
                Err("Invalid setup token format"@)
            },
            None => Err("Invalid setup token format"@),
        }
    }
}

/// The address a setup token stands for: the token is base64 for the
/// address in UTF-8.
pub fn claim_url(setup_token: &str) -> (r: Result<String, String>)
    ensures
        match r {
            Ok(url) => spec_claim_url(setup_token@) == Ok::<Seq<char>, Seq<char>>(url@),
            Err(e) => spec_claim_url(setup_token@) == Err::<Seq<char>, Seq<char>>(e@),
        },
        r matches Ok(url) ==> base64_decoded(setup_token@) == Some(vstd::utf8::encode_utf8(url@)),
{
    if setup_token.unicode_len() == 0 {
        return Err("setupToken is required for SimpleFIN integration".to_owned());
    }
    match decode_base64(setup_token) {
        Some(bytes) => match text_from_utf8(bytes) {
            Some(url) => {
                proof {
                    vstd::utf8::encode_utf8_valid_utf8(url@);
                    vstd::utf8::encode_utf8_decode_utf8(url@);
                }
                Ok(url)
            },
            None => Err("Invalid setup token format".to_owned()),
        },
        None => Err("Invalid setup token format".to_owned()),
    }
}

/// The settings under which the aggregator is configured, given the
/// access address it handed out.
pub fn integration_settings(access_url: String) -> (r: ServiceResult<StringMap>)
    ensures
        if access_url@.len() == 0 {
            !r.success && r.data is None && opt_text(r.error) == Some(
                "No access URL received from SimpleFIN"@,
            )
        } else {
            r.success && r.error is None && (r.data matches Some(m) && m@ == Map::<
                Seq<char>,
                Seq<char>,
            >::empty().insert("accessUrl"@, access_url@))
        },
{
    if access_url.as_str().unicode_len() == 0 {
        return ServiceResult::fail("No access URL received from SimpleFIN".to_owned());
    }
    let mut result = StringMap::new();
    result.insert("accessUrl".to_owned(), access_url);
    ServiceResult::ok(result)
}

/// The account the aggregator reports, as a record: with a fresh
/// identifier, the aggregator's identifier among its external ids, and US
/// dollars where no currency is reported.
pub fn account_from_remote(
    remote_id: String,
    name: String,
    currency: Option<String>,
    balance: Option<Amount>,
    institution_name: Option<String>,
    institution_url: Option<String>,
    institution_domain: Option<String>,
    now: Timestamp,
) -> (r: Account)
    ensures
        r.name == name,
        r.nickname is None,
        r.account_type is None,
        r.currency@ == match currency {
            Some(c) => c@,
            None => "USD"@,
        },
        r.external_ids@ == Map::<Seq<char>, Seq<char>>::empty().insert("simplefin"@, remote_id@),
        r.balance == balance,
        r.institution_name == institution_name,
        r.institution_url == institution_url,
        r.institution_domain == institution_domain,
        r.created_at == now,
        r.updated_at == now,
{
    let mut external_ids = StringMap::new();
    external_ids.insert("simplefin".to_owned(), remote_id);
    Account {
        id: fresh_id(),
        name,
        nickname: None,
        account_type: None,
        currency: match currency {
            Some(c) => c,
            None => "USD".to_owned(),
        },
        external_ids,
        balance,
        institution_name,
        institution_url,
        institution_domain,
        created_at: now,
        updated_at: now,
    }
}

/// The transaction the aggregator reports, as a record: with a fresh
/// identifier, no account yet, the aggregator's identifier among its
/// external ids, dated on the day it was posted (or today, where that
/// instant lies outside the calendar), and tagged with its category.
pub fn transaction_from_remote(
    remote_id: String,
    posted: i64,
    amount: Amount,
    description: Option<String>,
    category: Option<String>,
    now: Timestamp,
) -> (r: Transaction)
    requires
        now.wf(),
    ensures
        r.account_id == NIL_ID,
        r.external_ids@ == Map::<Seq<char>, Seq<char>>::empty().insert("simplefin"@, remote_id@),
        r.amount == amount,
        r.description == description,
        r.transaction_date.days == if (Timestamp { secs: posted, nanos: 0 }).wf() {
            day_of_second(posted as int)
        } else {
            day_of_second(now.secs as int)
        },
        r.transaction_date.wf(),
        r.posted_date == r.transaction_date,
        r.tags@ == match category {
            Some(c) => seq![c],
            None => Seq::<String>::empty(),
        },
        r.created_at == now,
        r.updated_at == now,
        r.deleted_at is None,
        r.parent_transaction_id is None,
{
    let mut external_ids = StringMap::new();
    external_ids.insert("simplefin".to_owned(), remote_id);
    let posted_at = Timestamp { secs: posted, nanos: 0 };
    let day = if posted_at.is_valid() {
        posted_at.date()
    } else {
        now.date()
    };
    let mut tags: Vec<String> = Vec::new();
    match category {
        Some(c) => {
            tags.push(c);
        },
        None => {},
    }
    Transaction {
        id: fresh_id(),
        account_id: NIL_ID,
        external_ids,
        amount,
        description,
        transaction_date: day,
        posted_date: day,
        tags,
        created_at: now,
        updated_at: now,
        deleted_at: None,
        parent_transaction_id: None,
    }
}

/// A transaction as the aggregator reports it.
#[derive(Clone, Debug)]
pub struct RemoteTransaction {
    pub id: String,
    /// The instant of posting, in seconds from 1970-01-01T00:00:00.
    pub posted: i64,
    pub amount: Amount,
    pub description: Option<String>,
    pub category: Option<String>,
}

/// An account as the aggregator reports it, with its transactions.
#[derive(Clone, Debug)]
pub struct RemoteAccount {
    pub id: String,
    pub name: String,
    pub currency: Option<String>,
    pub balance: Option<Amount>,
    pub institution_name: Option<String>,
    pub institution_url: Option<String>,
    pub institution_domain: Option<String>,
    pub transactions: Vec<RemoteTransaction>,
}

/// What the aggregator reports: its warnings and its accounts.
#[derive(Clone, Debug)]
pub struct RemoteData {
    pub errors: Vec<String>,
    pub accounts: Vec<RemoteAccount>,
}

/// How asking the aggregator went.
#[derive(Debug)]
pub enum FetchOutcome {
    /// No answer came in time.
    TimedOut,
    /// No connection was made.
    Unreachable,
    /// Asking failed otherwise; the reason is given.
    Failed(String),
    /// An answer came: its status, and its body as far as it could be
    /// read, or the reason why it could not.
    Answered { status: u16, body: Result<RemoteData, String> },
}

/// What to ask the aggregator: the address, and the credentials to ask
/// with.
#[derive(Clone, Debug)]
pub struct RemoteRequest {
    pub url: String,
    pub username: String,
    pub password: String,
}

/// The message for an outcome that yields no data, or nothing where the
/// outcome is an answer of status 200 with a body that was read. `what` names
/// what was asked for, as in `accounts`.
pub open spec fn spec_fetch_error(outcome: FetchOutcome, what: Seq<char>) -> Option<Seq<char>> {
    let head = "Failed to fetch SimpleFIN "@ + what + ": "@;
    match outcome {
        FetchOutcome::TimedOut => Some(head + "Connection timed out after 30 seconds"@),
        FetchOutcome::Unreachable => Some(head + "Unable to connect to SimpleFIN servers"@),
        FetchOutcome::Failed(reason) => Some(head + reason@),
        FetchOutcome::Answered { status, body } => match spec_status_error(status) {
            Some(message) => Some(message),
            None => match body {
                Ok(_) => None,
                Err(reason) => Some("Failed to parse SimpleFIN response: "@ + reason@),
            },
        },
    }
}

/// The transactions of the reported accounts, each with the identifier of
/// its account, account by account.
pub open spec fn remote_pairs(accounts: Seq<RemoteAccount>) -> Seq<(String, RemoteTransaction)>
    decreases accounts.len(),
{
    if accounts.len() == 0 {
        Seq::empty()
    } else {
        remote_pairs(accounts.drop_last()) + accounts.last().transactions@.map_values(
            |t: RemoteTransaction| (accounts.last().id, t),
        )
    }
}

/// Whether a record is the reported account, turned into a record at the
/// instant `now`.
pub open spec fn is_account_of(r: Account, remote: RemoteAccount, now: Timestamp) -> bool {
    &&& r.name@ == remote.name@
    &&& r.nickname is None
    &&& r.account_type is None
    &&& r.currency@ == match remote.currency {
        Some(c) => c@,
        None => "USD"@,
    }
    &&& r.external_ids@ == Map::<Seq<char>, Seq<char>>::empty().insert("simplefin"@, remote.id@)
    &&& r.balance == remote.balance
    &&& opt_text(r.institution_name) == opt_text(remote.institution_name)
    &&& opt_text(r.institution_url) == opt_text(remote.institution_url)
    &&& opt_text(r.institution_domain) == opt_text(remote.institution_domain)
    &&& r.created_at == now
    &&& r.updated_at == now
}

/// Whether a record is the reported transaction, turned into a record at
/// the instant `now`.
pub open spec fn is_transaction_of(r: Transaction, remote: RemoteTransaction, now: Timestamp) -> bool {
    &&& r.account_id == NIL_ID
    &&& r.external_ids@ == Map::<Seq<char>, Seq<char>>::empty().insert("simplefin"@, remote.id@)
    &&& r.amount == remote.amount
    &&& opt_text(r.description) == opt_text(remote.description)
    &&& r.transaction_date.days == if (Timestamp { secs: remote.posted, nanos: 0 }).wf() {
        day_of_second(remote.posted as int)
    } else {
        day_of_second(now.secs as int)
    }
    &&& r.posted_date == r.transaction_date
    &&& crate::text::texts(r.tags@) == match remote.category {
        Some(c) => seq![c@],
        None => Seq::<Seq<char>>::empty(),
    }
    &&& r.created_at == now
    &&& r.updated_at == now
    &&& r.deleted_at is None
    &&& r.parent_transaction_id is None
}

/// The message for an outcome that yields no data.
pub fn fetch_error(outcome: &FetchOutcome, what: &str) -> (r: Option<String>)
    ensures
        opt_text(r) == spec_fetch_error(*outcome, what@),
{
    let mut head = "Failed to fetch SimpleFIN ".to_owned();
    head.append(what);
    head.append(": ");
    match outcome {
        FetchOutcome::TimedOut => {
            head.append("Connection timed out after 30 seconds");
            Some(head)
        },
        FetchOutcome::Unreachable => {
            head.append("Unable to connect to SimpleFIN servers");
            Some(head)
        },
        FetchOutcome::Failed(reason) => {
            head.append(reason.as_str());
            Some(head)
        },
        FetchOutcome::Answered { status, body } => match status_error(*status) {
            Some(message) => Some(message),
            None => match body {
                Ok(_) => None,
                Err(reason) => {
                    let mut message = "Failed to parse SimpleFIN response: ".to_owned();
                    message.append(reason.as_str());
                    Some(message)
                },
            },
        },
    }
}

/// A copy of a list of texts.
fn copy_warnings(errors: &Vec<String>) -> (r: Vec<String>)
    ensures
        crate::text::texts(r@) == crate::text::texts(errors@),
{
    crate::text::clone_texts(errors)
}

/// The message for a claim that could not be made: how asking went
/// wrong.
pub open spec fn spec_claim_error(outcome: FetchOutcome) -> Option<Seq<char>> {
    match outcome {
        FetchOutcome::TimedOut => Some("Integration setup failed: Connection timed out"@),
        FetchOutcome::Unreachable => Some(
            "Integration setup failed: Unable to connect to SimpleFIN servers"@,
        ),
        FetchOutcome::Failed(reason) => Some("Integration setup failed: "@ + reason@),
        FetchOutcome::Answered { status, body } => if status != 200 {
            Some("Failed to verify SimpleFIN token"@)
        } else {
            None
        },
    }
}

impl SimpleFINProvider {
    pub fn new() -> (r: SimpleFINProvider)
        ensures
            r == SimpleFINProvider,
    {
        SimpleFINProvider
    }

    /// What to ask the aggregator for the accounts and transactions behind
    /// an access address, for the range between the two instants (given in
    /// seconds). Fails where the access address is refused.
    pub fn request(access_url: &str, start: Option<i64>, end: Option<i64>) -> (r: Result<
        RemoteRequest,
        String,
    >)
        ensures
            match r {
                Ok(req) => spec_parse_access_url(access_url@) matches Ok(parts) && req.url@
                    == spec_accounts_url(parts.0, start, end) && req.username@ == parts.1
                    && req.password@ == parts.2,
                Err(e) => spec_parse_access_url(access_url@) == Err::<
                    (Seq<char>, Seq<char>, Seq<char>),
                    Seq<char>,
                >(e@),
            },
    {
        match parse_access_url(access_url) {
            Ok(parts) => {
                let url = accounts_url(&parts, start, end);
                Ok(RemoteRequest { url, username: parts.username, password: parts.password })
            },
            Err(e) => Err(e),
        }
    }

    /// The address to claim an access address at, for a setup token.
    pub fn create_integration(setup_token: &str) -> (r: Result<String, String>)
        ensures
            match r {
                Ok(url) => spec_claim_url(setup_token@) == Ok::<Seq<char>, Seq<char>>(url@),
                Err(e) => spec_claim_url(setup_token@) == Err::<Seq<char>, Seq<char>>(e@),
            },
            r matches Ok(url) ==> base64_decoded(setup_token@) == Some(
                vstd::utf8::encode_utf8(url@),
            ),
    {
        claim_url(setup_token)
    }

    /// The settings under which the aggregator is configured, given how
    /// claiming the access address went; `access_url` is the body of the
    /// answer, where there was one.
    pub fn claimed(outcome: &FetchOutcome, access_url: String) -> (r: ServiceResult<StringMap>)
        ensures
            match spec_claim_error(*outcome) {
                Some(message) => !r.success && r.data is None && opt_text(r.error) == Some(message),
                None => if access_url@.len() == 0 {
                    !r.success && r.data is None && opt_text(r.error) == Some(
                        "No access URL received from SimpleFIN"@,
                    )
                } else {
                    r.success && r.error is None && (r.data matches Some(m) && m@ == Map::<
                        Seq<char>,
                        Seq<char>,
                    >::empty().insert("accessUrl"@, access_url@))
                },
            },
    {
        match outcome {
            FetchOutcome::TimedOut => ServiceResult::fail(
                "Integration setup failed: Connection timed out".to_owned(),
            ),
            FetchOutcome::Unreachable => ServiceResult::fail(
                "Integration setup failed: Unable to connect to SimpleFIN servers".to_owned(),
            ),
            FetchOutcome::Failed(reason) => {
                let mut message = "Integration setup failed: ".to_owned();
                message.append(reason.as_str());
                ServiceResult::fail(message)
            },
            FetchOutcome::Answered { status, body } => {
                if *status != 200 {
                    ServiceResult::fail("Failed to verify SimpleFIN token".to_owned())
                } else {
                    integration_settings(access_url)
                }
            },
        }
    }

    /// The accounts in what the aggregator answered, as records; or the
    /// failure that the outcome means.
    pub fn get_accounts(outcome: &FetchOutcome, now: Timestamp) -> (r: ServiceResult<
        SimpleFINAccountsResponse,
    >)
        ensures
            match spec_fetch_error(*outcome, "accounts"@) {
                Some(message) => !r.success && r.data is None && opt_text(r.error) == Some(message),
                None => {
                    &&& r.success
                    &&& r.error is None
                    &&& r.data matches Some(resp)
                    &&& outcome matches FetchOutcome::Answered { status, body: Ok(data) }
                    &&& crate::text::texts(resp.errors@) == crate::text::texts(data.errors@)
                    &&& resp.accounts@.len() == data.accounts@.len()
                    &&& forall|i: int|
                        0 <= i < resp.accounts@.len() ==> is_account_of(
                            #[trigger] resp.accounts@[i],
                            data.accounts@[i],
                            now,
                        )
                },
            },
    {
        match fetch_error(outcome, "accounts") {
            Some(message) => {
                return ServiceResult::fail(message);
            },
            None => {},
        }
        let data = match outcome {
            FetchOutcome::Answered { status, body: Ok(data) } => data,
            _ => {
                return ServiceResult::fail(String::new());
            },
        };
        let mut accounts: Vec<Account> = Vec::new();
        let mut i: usize = 0;
        while i < data.accounts.len()
            invariant
                i <= data.accounts@.len(),
                accounts@.len() == i,
                forall|k: int|
                    0 <= k < i ==> is_account_of(#[trigger] accounts@[k], data.accounts@[k], now),
            decreases data.accounts@.len() - i,
        {
            let remote = &data.accounts[i];
            accounts.push(
                account_from_remote(
                    remote.id.clone(),
                    remote.name.clone(),
                    crate::text::clone_opt_text(&remote.currency),
                    remote.balance,
                    crate::text::clone_opt_text(&remote.institution_name),
                    crate::text::clone_opt_text(&remote.institution_url),
                    crate::text::clone_opt_text(&remote.institution_domain),
                    now,
                ),
            );
            i += 1;
        }
        ServiceResult::ok(SimpleFINAccountsResponse { accounts, errors: copy_warnings(&data.errors) })
    }

    /// The transactions in what the aggregator answered, as records, each
    /// with the aggregator's identifier of its account; or the failure
    /// that the outcome means.
    pub fn get_transactions(outcome: &FetchOutcome, now: Timestamp) -> (r: ServiceResult<
        SimpleFINTransactionsResponse,
    >)
        requires
            now.wf(),
        ensures
            match spec_fetch_error(*outcome, "transactions"@) {
                Some(message) => !r.success && r.data is None && opt_text(r.error) == Some(message),
                None => {
                    &&& r.success
                    &&& r.error is None
                    &&& r.data matches Some(resp)
                    &&& outcome matches FetchOutcome::Answered { status, body: Ok(data) }
                    &&& crate::text::texts(resp.errors@) == crate::text::texts(data.errors@)
                    &&& resp.transactions@.len() == remote_pairs(data.accounts@).len()
                    &&& forall|i: int|
                        0 <= i < resp.transactions@.len() ==> (#[trigger] resp.transactions@[i]).0@
                            == remote_pairs(data.accounts@)[i].0@ && is_transaction_of(
                            resp.transactions@[i].1,
                            remote_pairs(data.accounts@)[i].1,
                            now,
                        )
                },
            },
    {
        match fetch_error(outcome, "transactions") {
            Some(message) => {
                return ServiceResult::fail(message);
            },
            None => {},
        }
        let data = match outcome {
            FetchOutcome::Answered { status, body: Ok(data) } => data,
            _ => {
                return ServiceResult::fail(String::new());
            },
        };
        let mut out: Vec<(String, Transaction)> = Vec::new();
        let mut a: usize = 0;
        assert(data.accounts@.take(0) =~= Seq::<RemoteAccount>::empty());
        while a < data.accounts.len()
            invariant
                a <= data.accounts@.len(),
                now.wf(),
                out@.len() == remote_pairs(data.accounts@.take(a as int)).len(),
                forall|k: int|
                    0 <= k < out@.len() ==> (#[trigger] out@[k]).0@ == remote_pairs(
                        data.accounts@.take(a as int),
                    )[k].0@ && is_transaction_of(
                        out@[k].1,
                        remote_pairs(data.accounts@.take(a as int))[k].1,
                        now,
                    ),
            decreases data.accounts@.len() - a,
        {
            let account = &data.accounts[a];
            let ghost before = remote_pairs(data.accounts@.take(a as int));
            let ghost mine = account.transactions@.map_values(
                |t: RemoteTransaction| (account.id, t),
            );
            proof {
                assert(data.accounts@.take(a + 1).drop_last() =~= data.accounts@.take(a as int));
                assert(data.accounts@.take(a + 1).last() == *account);
                assert(remote_pairs(data.accounts@.take(a + 1)) == before + mine);
            }
            let mut t: usize = 0;
            while t < account.transactions.len()
                invariant
                    t <= account.transactions@.len(),
                    now.wf(),
                    mine == account.transactions@.map_values(
                        |t: RemoteTransaction| (account.id, t),
                    ),
                    out@.len() == before.len() + t,
                    forall|k: int|
                        0 <= k < out@.len() ==> (#[trigger] out@[k]).0@ == (before + mine)[k].0@
                            && is_transaction_of(out@[k].1, (before + mine)[k].1, now),
                decreases account.transactions@.len() - t,
            {
                let remote = &account.transactions[t];
                let tx = transaction_from_remote(
                    remote.id.clone(),
                    remote.posted,
                    remote.amount,
                    crate::text::clone_opt_text(&remote.description),
                    crate::text::clone_opt_text(&remote.category),
                    now,
                );
                proof {
                    assert((before + mine)[before.len() + t] == mine[t as int]);
                    assert(mine[t as int] == (account.id, *remote));
                    assert(crate::text::texts(tx.tags@) =~= match remote.category {
                        Some(c) => seq![c@],
                        None => Seq::<Seq<char>>::empty(),
                    });
                }
                out.push((account.id.clone(), tx));
                t += 1;
            }
            a += 1;
        }
        assert(data.accounts@.take(data.accounts@.len() as int) =~= data.accounts@);
        ServiceResult::ok(
            SimpleFINTransactionsResponse { transactions: out, errors: copy_warnings(&data.errors) },
        )
    }
}

/// Takes an address apart with `url::Url::parse` and the accessors
/// `scheme`, `host_str`, `username`, `password` and `path`. The result is
/// named by [`url_parts`].
#[verifier::external_body]
fn split_url(s: &str) -> (r: Option<(String, Option<String>, String, Option<String>, String)>)
    ensures
        match r {
            Some(p) => url_parts(s@) == Some((p.0@, opt_text(p.1), p.2@, opt_text(p.3), p.4@)),
            None => url_parts(s@) is None,
        },
{
    match url::Url::parse(s) {
        Ok(u) => Some(
            (
                u.scheme().to_string(),
                u.host_str().map(String::from),
                u.username().to_string(),
                u.password().map(String::from),
                u.path().to_string(),
            ),
        ),
        Err(_) => None,
    }
}

/// Decodes standard base64 with the `base64` crate's `STANDARD` engine.
/// The result is named by [`base64_decoded`].
#[verifier::external_body]
fn decode_base64(s: &str) -> (r: Option<Vec<u8>>)
    ensures
        match r {
            Some(bytes) => base64_decoded(s@) == Some(bytes@),
            None => base64_decoded(s@) is None,
        },
{
    base64::Engine::decode(&base64::engine::general_purpose::STANDARD, s).ok()
}

/// Reads bytes as UTF-8 with `String::from_utf8`: yields the text whose
/// encoding the bytes are, if they are the encoding of a text.
#[verifier::external_body]
fn text_from_utf8(bytes: Vec<u8>) -> (r: Option<String>)
    ensures
        match r {
            Some(s) => vstd::utf8::encode_utf8(s@) == bytes@,
            None => !vstd::utf8::valid_utf8(bytes@),
        },
{
    String::from_utf8(bytes).ok()
}

} // verus!
