//! The summary emitter: one record per account, amounts rendered with
//! exactly four fractional digits, written out as CSV with the header
//! `client,available,held,total,locked`.

use vstd::prelude::*;

use crate::account::{Account, AccountStatus};
use crate::amount::{dec_string, spec_amount_str, spec_dec_str};
use crate::model::{Amount4DecimalBased, ClientId};
use crate::transactors::fits_i64;
use vstd::string::StringSliceAdditionalSpecFns;

verus! {

/// One line of the final report: the client, its funds rendered as
/// fixed-point decimals, and whether the account is locked.
#[derive(Debug, PartialEq, Clone)]
pub struct AccountSummary {
    pub client_id: ClientId,
    pub available: String,
    pub held: String,
    pub total: String,
    pub locked: bool,
}

/// The mathematical value of an [`AccountSummary`].
pub ghost struct AccountSummaryModel {
    pub client_id: ClientId,
    pub available: Seq<char>,
    pub held: Seq<char>,
    pub total: Seq<char>,
    pub locked: bool,
}

impl View for AccountSummary {
    type V = AccountSummaryModel;

    open spec fn view(&self) -> AccountSummaryModel {
        AccountSummaryModel {
            client_id: self.client_id,
            available: self.available@,
            held: self.held@,
            total: self.total@,
            locked: self.locked,
        }
    }
}

impl DeepView for AccountSummary {
    type V = AccountSummaryModel;

    open spec fn deep_view(&self) -> AccountSummaryModel {
        self.view()
    }
}

impl AccountSummary {
    /// Reads one account off into a summary record: the available and held
    /// funds as rendered amounts, their sum as the total, and the lock
    /// status.
    pub fn from_account(account: &Account) -> (summary: AccountSummary)
        requires
            fits_i64(account@.available + account@.held),
        ensures
            summary@.client_id == account.client_id,
            summary@.available == spec_amount_str(account@.available),
            summary@.held == spec_amount_str(account@.held),
            summary@.total == spec_amount_str(account@.available + account@.held),
            summary@.locked == (account@.status is Locked),
    {
        let available = account.account_snapshot.available;
        let held = account.account_snapshot.held;
        let total = Amount4DecimalBased(available.0 + held.0);
        AccountSummary {
            client_id: account.client_id,
            available: available.to_str(),
            held: held.to_str(),
            total: total.to_str(),
            locked: matches!(account.status, AccountStatus::Locked),
        }
    }
}

/// How one summary renders as a CSV line.
pub open spec fn spec_summary_line(s: AccountSummaryModel) -> Seq<char> {
    spec_dec_str(s.client_id as nat) + seq![','] + s.available + seq![','] + s.held + seq![',']
        + s.total + seq![','] + (if s.locked {
        "true"@
    } else {
        "false"@
    }) + seq!['\n']
}

/// How a whole report renders: the header line, then one line per
/// summary, in the order given.
pub open spec fn spec_summary_csv(rows: Seq<AccountSummaryModel>) -> Seq<char>
    decreases rows.len(),
{
    if rows.len() == 0 {
        "client,available,held,total,locked\n"@
    } else {
        spec_summary_csv(rows.drop_last()) + spec_summary_line(rows.last())
    }
}

/// The writer could not serialise a summary.
#[derive(Debug, PartialEq, Clone)]
pub enum AccountSummaryWriterError {
    SerialisationError(String),
}

/// Writes account summaries as CSV bytes.
pub struct AccountSummaryCsvWriter;

impl AccountSummaryCsvWriter {
    /// Renders the report: exactly the UTF-8 bytes of
    /// [`spec_summary_csv`] over the given summaries, in the given order.
    pub fn write(summaries: Vec<AccountSummary>) -> (result: Result<
        Vec<u8>,
        AccountSummaryWriterError,
    >)
        ensures
            ({
                match result {
                    Ok(bytes) => bytes@ == vstd::utf8::encode_utf8(
                        spec_summary_csv(summaries.deep_view()),
                    ),
                    Err(_) => false,
                }
            }),
    {
        let mut out = String::new();
        out.append("client,available,held,total,locked\n");
        let mut i: usize = 0;
        proof {
            assert(summaries.deep_view().subrange(0, 0) =~= Seq::<AccountSummaryModel>::empty());
            assert(out@ =~= spec_summary_csv(summaries.deep_view().subrange(0, 0)));
        }
        while i < summaries.len()
            invariant
                0 <= i <= summaries@.len(),
                summaries@.len() == summaries.deep_view().len(),
                out@ == spec_summary_csv(summaries.deep_view().subrange(0, i as int)),
            decreases summaries@.len() - i,
        {
            let ghost prefix = summaries.deep_view().subrange(0, i as int);
            let summary = &summaries[i];
            proof {
                assert(summaries.deep_view()[i as int] == summaries@[i as int]@);
                assert(summaries.deep_view().subrange(0, i + 1) =~= prefix.push(summary@));
                assert(prefix.push(summary@).drop_last() =~= prefix);
            }
            let client_string = dec_string(summary.client_id as u64);
            out.append(client_string.as_str());
            out.append(",");
            out.append(summary.available.as_str());
            out.append(",");
            out.append(summary.held.as_str());
            out.append(",");
            out.append(summary.total.as_str());
            out.append(",");
            if summary.locked {
                out.append("true");
            } else {
                out.append("false");
            }
            out.append("\n");
            proof {
                reveal_strlit(",");
                reveal_strlit("\n");
                assert(","@ =~= seq![',']);
                assert("\n"@ =~= seq!['\n']);
                assert(out@ =~= spec_summary_csv(prefix) + spec_summary_line(summary@));
            }
            i = i + 1;
        }
        proof {
            assert(summaries.deep_view().subrange(0, summaries.deep_view().len() as int)
                =~= summaries.deep_view());
        }
        let bytes = vstd::slice::slice_to_vec(out.as_str().as_bytes());
        Ok(bytes)
    }
}

} // verus!
