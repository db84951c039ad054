//! A source of made-up records, for trying the ledger out without a bank.

use vstd::prelude::*;
use vstd::string::*;
use crate::amount::Amount;
use crate::calendar::{Date, Timestamp, DATE_MIN_DAYS};
use crate::domain::{Account, ServiceResult, Transaction};
use crate::ident::{fresh_id, NIL_ID};
use crate::string_map::StringMap;
use crate::text::{decimal_digit, push_char};

verus! {

/// The source of demo records.
pub struct DemoDataProvider;

/// The demo accounts, with the source's warnings.
#[derive(Debug)]
pub struct DemoAccountsResponse {
    pub accounts: Vec<Account>,
    pub errors: Vec<String>,
}

/// The demo transactions, each with the source's name for its account, and
/// the source's warnings.
#[derive(Debug)]
pub struct DemoTransactionsResponse {
    pub transactions: Vec<(String, Transaction)>,
    pub errors: Vec<String>,
}

/// How many demo transactions there are.
pub const DEMO_TRANSACTION_COUNT: usize = 18;

/// How many days the demo transactions reach back.
pub const DEMO_DAYS: i32 = 90;

/// The day of the demo transaction at position `i`: the transactions are
/// spread evenly over the last ninety days.
pub open spec fn demo_day(today: Date, i: int) -> int {
    today.days - DEMO_DAYS + (i * DEMO_DAYS) / (DEMO_TRANSACTION_COUNT as int)
}

/// The source's identifier of the demo transaction at position `i`:
/// `demo-tx-` and the position in four digits.
pub open spec fn demo_transaction_id(i: int) -> Seq<char> {
    "demo-tx-"@ + seq![
        crate::text::hex_digits()[i / 1000 % 10],
        crate::text::hex_digits()[i / 100 % 10],
        crate::text::hex_digits()[i / 10 % 10],
        crate::text::hex_digits()[i % 10],
    ]
}

fn transaction_id(i: usize) -> (r: String)
    requires
        i < 10_000,
    ensures
        r@ == demo_transaction_id(i as int),
{
    let mut s = "demo-tx-".to_owned();
    push_char(&mut s, decimal_digit((i / 1000 % 10) as u64));
    push_char(&mut s, decimal_digit((i / 100 % 10) as u64));
    push_char(&mut s, decimal_digit((i / 10 % 10) as u64));
    push_char(&mut s, decimal_digit((i % 10) as u64));
    assert(s@ =~= demo_transaction_id(i as int));
    s
}

/// One demo account.
fn demo_account(
    name: &str,
    source_id: &str,
    hundredths: i64,
    institution: &str,
    url: &str,
    domain: &str,
    now: Timestamp,
) -> (r: Account)
    ensures
        r.name@ == name@,
        r.account_type is None,
        r.nickname is None,
        r.currency@ == "USD"@,
        r.external_ids@ == Map::<Seq<char>, Seq<char>>::empty().insert("simplefin"@, source_id@),
        r.balance == Some(Amount { mantissa: hundredths as i128, scale: 2 }),
        r.wf(),
{
    let mut external_ids = StringMap::new();
    external_ids.insert("simplefin".to_owned(), source_id.to_owned());
    Account {
        id: fresh_id(),
        name: name.to_owned(),
        nickname: None,
        account_type: None,
        currency: "USD".to_owned(),
        external_ids,
        balance: Some(Amount::from_hundredths(hundredths)),
        institution_name: Some(institution.to_owned()),
        institution_url: Some(url.to_owned()),
        institution_domain: Some(domain.to_owned()),
        created_at: now,
        updated_at: now,
    }
}

/// One demo transaction, with the source's name for its account.
fn demo_transaction(
    i: usize,
    account: &str,
    description: &str,
    hundredths: i64,
    category: &str,
    today: Date,
    now: Timestamp,
) -> (r: (String, Transaction))
    requires
        i < DEMO_TRANSACTION_COUNT,
        today.wf(),
        today.days - DEMO_DAYS >= DATE_MIN_DAYS,
    ensures
        r.0@ == account@,
        r.1.wf(),
        r.1.account_id == NIL_ID,
        r.1.amount == (Amount { mantissa: hundredths as i128, scale: 2 }),
        r.1.transaction_date.days == demo_day(today, i as int),
        r.1.posted_date == r.1.transaction_date,
        crate::text::opt_text(r.1.description) == Some(description@),
        r.1.external_ids@.contains_key("simplefin"@),
        r.1.external_ids@["simplefin"@] == demo_transaction_id(i as int),
        r.1.external_ids@.contains_key("fingerprint"@),
{
    let offset: i32 = (i as i32 * DEMO_DAYS) / (DEMO_TRANSACTION_COUNT as i32);
    let day = Date { days: today.days - DEMO_DAYS + offset };
    let mut external_ids = StringMap::new();
    external_ids.insert("simplefin".to_owned(), transaction_id(i));
    let mut tags: Vec<String> = Vec::new();
    tags.push(category.to_owned());
    let mut tx = Transaction {
        id: fresh_id(),
        account_id: NIL_ID,
        external_ids,
        amount: Amount::from_hundredths(hundredths),
        description: Some(description.to_owned()),
        transaction_date: day,
        posted_date: day,
        tags,
        created_at: now,
        updated_at: now,
        deleted_at: None,
        parent_transaction_id: None,
    };
    proof {
        reveal_strlit("simplefin");
        reveal_strlit("fingerprint");
        assert("simplefin"@ != "fingerprint"@) by {
            assert("simplefin"@.len() == 9);
            assert("fingerprint"@.len() == 11);
        }
    }
    tx.ensure_fingerprint();
    (account.to_owned(), tx)
}

/// Whether the list is the demo accounts: a checking account, a savings
/// account and a credit card, each well formed, without a type, under its
/// source identifier and with its balance.
pub open spec fn are_demo_accounts(accounts: Seq<Account>) -> bool {
    &&& accounts.len() == 3
    &&& forall|i: int|
        0 <= i < 3 ==> (#[trigger] accounts[i]).wf() && accounts[i].account_type is None
            && accounts[i].external_ids@.contains_key("simplefin"@)
    &&& accounts[0].external_ids@["simplefin"@] == "demo-checking-001"@
    &&& accounts[1].external_ids@["simplefin"@] == "demo-savings-001"@
    &&& accounts[2].external_ids@["simplefin"@] == "demo-credit-001"@
    &&& accounts[0].balance == Some(Amount { mantissa: 324785, scale: 2 })
    &&& accounts[1].balance == Some(Amount { mantissa: 1542050, scale: 2 })
    &&& accounts[2].balance == Some(Amount { mantissa: -84232i128, scale: 2 })
}

/// The demo accounts as they stand at the instant `now`.
pub fn demo_accounts(now: Timestamp) -> (r: Vec<Account>)
    ensures
        are_demo_accounts(r@),
{
    let mut accounts: Vec<Account> = Vec::new();
    accounts.push(
        demo_account(
            "Demo Checking Account",
            "demo-checking-001",
            324785,
            "Demo Bank",
            "https://demo-bank.example.com",
            "demo-bank.example.com",
            now,
        ),
    );
    accounts.push(
        demo_account(
            "Demo Savings Account",
            "demo-savings-001",
            1542050,
            "Demo Bank",
            "https://demo-bank.example.com",
            "demo-bank.example.com",
            now,
        ),
    );
    accounts.push(
        demo_account(
            "Demo Credit Card",
            "demo-credit-001",
            -84232,
            "Demo Credit Union",
            "https://demo-credit.example.com",
            "demo-credit.example.com",
            now,
        ),
    );
    accounts
}

/// Whether the list is the demo transactions as they stand on the day
/// `today`: eighteen well-formed transactions without account, each on its
/// day and under its source identifier, with a fingerprint.
pub open spec fn are_demo_transactions(txs: Seq<(String, Transaction)>, today: Date) -> bool {
    &&& txs.len() == DEMO_TRANSACTION_COUNT
    &&& forall|i: int|
        0 <= i < txs.len() ==> {
            &&& (#[trigger] txs[i]).1.wf()
            &&& txs[i].1.account_id == NIL_ID
            &&& txs[i].1.transaction_date.days == demo_day(today, i)
            &&& txs[i].1.external_ids@.contains_key("simplefin"@)
            &&& txs[i].1.external_ids@["simplefin"@] == demo_transaction_id(i)
            &&& txs[i].1.external_ids@.contains_key("fingerprint"@)
        }
}

/// Whether the demo transactions can be dated from the instant `now`: the
/// instant and the day ninety days before it lie in the years the calendar
/// knows.
pub open spec fn demo_clock_ok(now: Timestamp) -> bool {
    now.wf() && crate::calendar::day_of_second(now.secs as int) - DEMO_DAYS >= DATE_MIN_DAYS
}

/// The demo transactions as they stand on the day `today`.
pub fn demo_transactions(today: Date, now: Timestamp) -> (r: Vec<(String, Transaction)>)
    requires
        today.wf(),
        today.days - DEMO_DAYS >= DATE_MIN_DAYS,
    ensures
        are_demo_transactions(r@, today),
{
    let checking = "demo-checking-001";
    let credit = "demo-credit-001";
    let savings = "demo-savings-001";
    let mut v: Vec<(String, Transaction)> = Vec::new();
    v.push(demo_transaction(0, checking, "QFC Grocery Store", -8743, "groceries", today, now));
    v.push(demo_transaction(1, checking, "Starbucks", -575, "coffee", today, now));
    v.push(demo_transaction(2, checking, "Shell Gas Station", -5200, "transportation", today, now));
    v.push(demo_transaction(3, checking, "Netflix", -1599, "entertainment", today, now));
    v.push(demo_transaction(4, checking, "Direct Deposit - Payroll", 350000, "income", today, now));
    v.push(demo_transaction(5, checking, "Amazon.com", -12487, "shopping", today, now));
    v.push(demo_transaction(6, checking, "PG&E Utility Bill", -14523, "utilities", today, now));
    v.push(demo_transaction(7, checking, "Target", -6792, "shopping", today, now));
    v.push(demo_transaction(8, checking, "Whole Foods", -11256, "groceries", today, now));
    v.push(demo_transaction(9, checking, "Uber", -2340, "transportation", today, now));
    v.push(demo_transaction(10, credit, "Delta Airlines", -45000, "travel", today, now));
    v.push(demo_transaction(11, credit, "Hilton Hotel", -28560, "travel", today, now));
    v.push(demo_transaction(12, credit, "Restaurant - Fine Dining", -9575, "dining", today, now));
    v.push(demo_transaction(13, credit, "Apple Store", -129900, "electronics", today, now));
    v.push(demo_transaction(14, credit, "Spotify Premium", -999, "entertainment", today, now));
    v.push(demo_transaction(15, credit, "Payment Thank You", 50000, "payment", today, now));
    v.push(demo_transaction(16, savings, "Transfer from Checking", 50000, "transfer", today, now));
    v.push(demo_transaction(17, savings, "Interest Payment", 1245, "income", today, now));
    v
}

impl Default for DemoDataProvider {
    fn default() -> (r: DemoDataProvider)
        ensures
            r == DemoDataProvider,
    {
        DemoDataProvider
    }
}

impl DemoDataProvider {
    pub fn new() -> (r: DemoDataProvider)
        ensures
            r == DemoDataProvider,
    {
        DemoDataProvider
    }

    /// The three demo accounts: checking, savings and a credit card.
    pub fn get_accounts(&self) -> (r: ServiceResult<DemoAccountsResponse>)
        ensures
            r.success,
            r.error is None,
            r.data matches Some(resp) && are_demo_accounts(resp.accounts@) && resp.errors@.len()
                == 0,
    {
        let now = Timestamp::now();
        ServiceResult::ok(DemoAccountsResponse { accounts: demo_accounts(now), errors: Vec::new() })
    }

    /// The eighteen demo transactions as they stand at the instant `now`,
    /// spread over the ninety days before it. Fails if and only if the
    /// instant, or the day ninety days before it, lies outside the years
    /// the calendar knows.
    pub fn get_transactions_at(&self, now: Timestamp) -> (r: ServiceResult<
        DemoTransactionsResponse,
    >)
        ensures
            if demo_clock_ok(now) {
                &&& r.success
                &&& r.error is None
                &&& r.data matches Some(resp)
                &&& resp.errors@.len() == 0
                &&& are_demo_transactions(
                    resp.transactions@,
                    Date { days: crate::calendar::day_of_second(now.secs as int) as i32 },
                )
            } else {
                &&& !r.success
                &&& r.data is None
                &&& crate::text::opt_text(r.error) == Some("System clock out of range"@)
            },
    {
        if !now.is_valid() {
            return ServiceResult::fail("System clock out of range".to_owned());
        }
        let today = now.date();
        if today.days < DATE_MIN_DAYS + DEMO_DAYS {
            return ServiceResult::fail("System clock out of range".to_owned());
        }
        ServiceResult::ok(
            DemoTransactionsResponse {
                transactions: demo_transactions(today, now),
                errors: Vec::new(),
            },
        )
    }

    /// The eighteen demo transactions, spread over the last ninety days.
    /// Fails where the clock stands outside the years the calendar knows,
    /// and only there.
    pub fn get_transactions(&self) -> (r: ServiceResult<DemoTransactionsResponse>)
        ensures
            r.success <==> r.data is Some,
            r.success ==> {
                &&& r.error is None
                &&& r.data matches Some(resp)
                &&& resp.errors@.len() == 0
                &&& resp.transactions@.len() == DEMO_TRANSACTION_COUNT
                &&& exists|today: Date| #[trigger] are_demo_transactions(resp.transactions@, today)
            },
            !r.success ==> crate::text::opt_text(r.error) == Some("System clock out of range"@),
    {
        let now = Timestamp::now();
        let r = self.get_transactions_at(now);
        proof {
            if demo_clock_ok(now) {
                assert(are_demo_transactions(
                    r.data->0.transactions@,
                    Date { days: crate::calendar::day_of_second(now.secs as int) as i32 },
                ));
            }
        }
        r
    }

    /// The settings under which the demo source is configured.
    pub fn create_integration(&self) -> (r: ServiceResult<StringMap>)
        ensures
            r.success,
            r.error is None,
            r.data matches Some(m) && m@ == Map::<Seq<char>, Seq<char>>::empty().insert(
                "accessUrl"@,
                "https://demo-provider.example.com/access/demo-user"@,
            ).insert("demo"@, "true"@),
    {
        let mut result = StringMap::new();
        result.insert(
            "accessUrl".to_owned(),
            "https://demo-provider.example.com/access/demo-user".to_owned(),
        );
        result.insert("demo".to_owned(), "true".to_owned());
        ServiceResult::ok(result)
    }
}

} // verus!
