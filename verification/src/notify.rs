//! The expiry evaluator and the sweep's notification planning: which records
//! are due, and the exact text of the message sent for each.

use vstd::prelude::*;

verus! {

use crate::date::{Date, date_valid, day_number, days_between, digit_char, digit_str};
use crate::store::{RecordV, TokenStore, due, record_valid};

/// The decimal numeral of a non-negative number, most significant digit
/// first, without leading zeros (the numeral of 0 is "0").
pub open spec fn dec_seq(n: int) -> Seq<char>
    decreases n,
{
    if n < 0 {
        Seq::empty()
    } else if n < 10 {
        seq![digit_char(n)]
    } else {
        dec_seq(n / 10).push(digit_char(n % 10))
    }
}

/// Renders a number as its decimal numeral.
pub fn u64_to_dec(n: u64) -> (r: String)
    ensures
        r@ == dec_seq(n as int),
    decreases n,
{
    if n < 10 {
        String::from_str(digit_str(n as u8))
    } else {
        let mut s = u64_to_dec(n / 10);
        s.append(digit_str((n % 10) as u8));
        proof {
            assert(s@ =~= dec_seq(n as int));
        }
        s
    }
}

/// The urgency message for a token named `name` with `days_remaining` whole
/// days until expiry: an EXPIRED notice at or past the expiry day, otherwise
/// a countdown with singular wording for one day and plural beyond.
pub open spec fn message_spec(name: Seq<char>, days_remaining: int) -> Seq<char> {
    if days_remaining <= 0 {
        "Token '"@ + name + "' has EXPIRED!"@
    } else if days_remaining == 1 {
        "Token '"@ + name + "' will expire in "@ + dec_seq(days_remaining) + " day!"@
    } else {
        "Token '"@ + name + "' will expire in "@ + dec_seq(days_remaining) + " days!"@
    }
}

/// Builds the urgency message for one due record.
pub fn notice_message(name: &str, days_remaining: i64) -> (r: String)
    ensures
        r@ == message_spec(name@, days_remaining as int),
{
    let mut out = String::from_str("Token '");
    out.append(name);
    if days_remaining <= 0 {
        out.append("' has EXPIRED!");
    } else {
        out.append("' will expire in ");
        let num = u64_to_dec(days_remaining as u64);
        out.append(num.as_str());
        if days_remaining > 1 {
            out.append(" days!");
        } else {
            out.append(" day!");
        }
    }
    proof {
        assert(out@ =~= message_spec(name@, days_remaining as int));
    }
    out
}

/// One planned notification: the record's name and the message to send.
pub struct Notice {
    pub name: String,
    pub message: String,
}

/// Plans one sweep: one notice per due record, in store order, each carrying
/// the record's name and its urgency message for `today`.
pub fn plan_sweep(store: &TokenStore, threshold: i64, today: Date) -> (r: Vec<Notice>)
    requires
        store.wf(),
        date_valid(today),
    ensures
        ({
            let dues = store@.filter(|rv: RecordV| due(rv, today, threshold as int));
            &&& r@.len() == dues.len()
            &&& forall|k: int|
                0 <= k < r@.len() ==> (#[trigger] r@[k]).name@ == dues[k].name && r@[k].message@
                    == message_spec(
                    dues[k].name,
                    day_number(dues[k].expires_at) - day_number(today),
                )
        }),
{
    let due_recs = store.find_expiring(threshold, today);
    let ghost dues = store@.filter(|rv: RecordV| due(rv, today, threshold as int));
    let n = due_recs.len();
    let mut out: Vec<Notice> = Vec::new();
    let mut i: usize = 0;
    while i < n
        invariant
            n == due_recs.len(),
            i <= n,
            date_valid(today),
            due_recs@.map_values(|t: crate::store::TokenRecord| t@) == dues,
            forall|k: int| 0 <= k < n ==> record_valid((#[trigger] due_recs@[k])@),
            out@.len() == i,
            forall|k: int|
                0 <= k < i ==> (#[trigger] out@[k]).name@ == dues[k].name && out@[k].message@
                    == message_spec(
                    dues[k].name,
                    day_number(dues[k].expires_at) - day_number(today),
                ),
        decreases n - i,
    {
        let rec = &due_recs[i];
        proof {
            assert(dues[i as int] == due_recs@[i as int]@);
        }
        let days = days_between(rec.expires_at, today);
        let message = notice_message(rec.name.as_str(), days);
        let notice = Notice { name: rec.name.clone(), message };
        out.push(notice);
        i = i + 1;
    }
    out
}

/// The daemon's two phases: sleeping between sweeps, or one sweep in
/// progress. There is no terminal phase; the loop runs until the process is
/// killed.
#[derive(Clone, Copy, Debug, PartialEq, Eq, Structural)]
pub enum DaemonPhase {
    Idle,
    Checking,
}

/// The daemon's alternation: a sleeping daemon begins a sweep when its timer
/// fires, and a sweeping daemon goes back to sleep when the sweep ends,
/// whether or not the sweep hit errors.
pub fn daemon_transition(phase: DaemonPhase) -> (next: DaemonPhase)
    ensures
        phase is Idle <==> next is Checking,
{
    match phase {
        DaemonPhase::Idle => DaemonPhase::Checking,
        DaemonPhase::Checking => DaemonPhase::Idle,
    }
}

/// The Bot API endpoint the notifier posts to for a given bot token.
pub fn telegram_send_url(bot_token: &str) -> (r: String)
    ensures
        r@ == "https://api.telegram.org/bot"@ + bot_token@ + "/sendMessage"@,
{
    let mut out = String::from_str("https://api.telegram.org/bot");
    out.append(bot_token);
    out.append("/sendMessage");
    proof {
        assert(out@ =~= "https://api.telegram.org/bot"@ + bot_token@ + "/sendMessage"@);
    }
    out
}

} // verus!
