//! Credit balance records and their display strings. Fetching balances
//! from the platform is network work done at the process edge; the exact
//! text shown to the user is pinned down here.

use vstd::prelude::*;
use vstd::string::*;
use crate::text::dec_int;

verus! {

/// The balance record returned by the orchestrator's credits endpoint.
pub struct CreditBalance {
    pub daily_balance: i32,
    pub bonus_balance: i32,
    pub daily_used: i32,
    pub reset_at: String,
}

/// The exact display text of a credit balance.
pub open spec fn spec_format_balance(b: CreditBalance) -> Seq<char> {
    "Credit Balance:\n  Daily  : "@ + dec_int(b.daily_balance as int) + " / "@ + dec_int(
        b.daily_balance as int + b.daily_used as int,
    ) + " (used "@ + dec_int(b.daily_used as int) + ")\n  Bonus  : "@ + dec_int(
        b.bonus_balance as int,
    ) + "\n  Total  : "@ + dec_int(b.daily_balance as int + b.bonus_balance as int)
        + "\n  Resets : "@ + b.reset_at@
}

/// Formats a credit balance for the terminal.
pub fn format_balance(balance: &CreditBalance) -> (r: String)
    ensures
        r@ == spec_format_balance(*balance),
{
    let total_daily: i64 = balance.daily_balance as i64 + balance.daily_used as i64;
    let total: i64 = balance.daily_balance as i64 + balance.bonus_balance as i64;
    let mut s = String::from_str("Credit Balance:\n  Daily  : ");
    let part = crate::text::i32_to_string(balance.daily_balance);
    s.append(part.as_str());
    s.append(" / ");
    let part = crate::text::i64_to_string(total_daily);
    s.append(part.as_str());
    s.append(" (used ");
    let part = crate::text::i32_to_string(balance.daily_used);
    s.append(part.as_str());
    s.append(")\n  Bonus  : ");
    let part = crate::text::i32_to_string(balance.bonus_balance);
    s.append(part.as_str());
    s.append("\n  Total  : ");
    let part = crate::text::i64_to_string(total);
    s.append(part.as_str());
    s.append("\n  Resets : ");
    s.append(balance.reset_at.as_str());
    proof {
        assert(s@ =~= spec_format_balance(*balance));
    }
    s
}

/// The simplified credit status returned by the platform REST API.
pub struct CreditStatus {
    pub balance: i32,
    pub monthly_used: i32,
    pub tier: String,
}

/// The first character raised to an ASCII capital.
pub open spec fn spec_capitalize(s: Seq<char>) -> Seq<char> {
    if s.len() == 0 {
        s
    } else {
        seq![spec_upper(s[0])] + s.drop_first()
    }
}

pub open spec fn spec_upper(c: char) -> char {
    if 'a' <= c && c <= 'z' {
        ((c as u32) - 32) as char
    } else {
        c
    }
}

/// Capitalizes the first character; tiers are plain ASCII words.
pub fn capitalize(s: &str) -> (r: String)
    ensures
        r@ == spec_capitalize(s@),
{
    let n = s.unicode_len();
    if n == 0 {
        proof {
            assert(s@ =~= Seq::<char>::empty());
        }
        String::new()
    } else {
        let c = s.get_char(0);
        let cu: u32 = c as u32;
        let up: char = if cu >= 97 && cu <= 122 {
            let code: u32 = cu - 32;
            match char::from_u32(code) {
                Some(u) => {
                    proof {
                        vstd::utf8::char_u32_cast(u, code);
                    }
                    u
                },
                None => {
                    proof {
                        assert(false);
                    }
                    c
                },
            }
        } else {
            c
        };
        proof {
            assert(up == spec_upper(c));
        }
        let mut out = String::new();
        crate::sys::push_char(&mut out, up);
        let rest = s.substring_char(1, n);
        out.append(rest);
        proof {
            assert(s@.subrange(1, s@.len() as int) =~= s@.drop_first());
            assert(out@ =~= spec_capitalize(s@));
        }
        out
    }
}

/// The exact display text of a credit status: unlimited for the paid
/// tiers, the daily and monthly remainders for the free tier.
pub open spec fn spec_format_credit_display(st: CreditStatus) -> Seq<char> {
    if st.tier@ == "pro"@ || st.tier@ == "team"@ {
        "Day 1 Doctor v1.0 | "@ + spec_capitalize(st.tier@) + " Tier\nCredits: Unlimited"@
    } else {
        "Day 1 Doctor v1.0 | Free Tier\nCredits: "@ + dec_int(st.balance as int)
            + "/5 remaining today | "@ + dec_int(50 - st.monthly_used as int)
            + "/50 this month"@
    }
}

/// Formats a credit status for the terminal.
pub fn format_credit_display(status: &CreditStatus) -> (r: String)
    ensures
        r@ == spec_format_credit_display(*status),
{
    let pro = status.tier == String::from_str("pro");
    let team = status.tier == String::from_str("team");
    if pro || team {
        let mut s = String::from_str("Day 1 Doctor v1.0 | ");
        let cap = capitalize(status.tier.as_str());
        s.append(cap.as_str());
        s.append(" Tier\nCredits: Unlimited");
        proof {
            assert(s@ =~= spec_format_credit_display(*status));
        }
        s
    } else {
        let monthly_remaining: i64 = 50 - (status.monthly_used as i64);
        let mut s = String::from_str("Day 1 Doctor v1.0 | Free Tier\nCredits: ");
        let part = crate::text::i32_to_string(status.balance);
        s.append(part.as_str());
        s.append("/5 remaining today | ");
        let part = crate::text::i64_to_string(monthly_remaining);
        s.append(part.as_str());
        s.append("/50 this month");
        proof {
            assert(s@ =~= spec_format_credit_display(*status));
        }
        s
    }
}

/// The default orchestrator API base URL for the credits endpoint.
pub fn default_orchestrator_api_url() -> (r: String)
    ensures
        r@ == "http://localhost:8080"@,
{
    String::from_str("http://localhost:8080")
}

} // verus!
