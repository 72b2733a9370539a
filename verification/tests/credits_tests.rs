use d1doctor::credits::{CreditBalance, CreditStatus, format_balance, format_credit_display, capitalize};
use d1doctor::client::{TokenStore, load_token};

#[test]
fn test_format_balance_displays_all_fields() {
    let balance = CreditBalance {
        daily_balance: 80,
        bonus_balance: 20,
        daily_used: 20,
        reset_at: "2026-02-27T00:00:00Z".to_string(),
    };

    let output = format_balance(&balance);

    assert!(output.contains("80"), "should contain daily_balance");
    assert!(output.contains("20"), "should contain bonus_balance / daily_used");
    assert!(output.contains("2026-02-27T00:00:00Z"), "should contain reset_at");
    assert!(output.contains("Credit Balance:"), "should have header");
    assert!(output.contains("Daily"), "should label daily credits");
    assert!(output.contains("Bonus"), "should label bonus credits");
    assert!(output.contains("Total"), "should label total credits");
    assert!(output.contains("Resets"), "should label reset time");
}

#[test]
fn test_format_balance_zero_values() {
    let balance = CreditBalance {
        daily_balance: 0,
        bonus_balance: 0,
        daily_used: 0,
        reset_at: "2026-02-27T00:00:00Z".to_string(),
    };

    let output = format_balance(&balance);

    // Should still produce a valid, non-empty string with all labels
    assert!(!output.is_empty(), "output should not be empty");
    assert!(output.contains("Daily"), "should still have Daily label");
    assert!(output.contains("Bonus"), "should still have Bonus label");
    assert!(output.contains("Total  : 0"), "total should be 0");
    assert!(
        output.contains("2026-02-27T00:00:00Z"),
        "should contain reset_at even with zero values"
    );
}

#[test]
fn test_format_balance_exact_text() {
    let balance = CreditBalance {
        daily_balance: 80,
        bonus_balance: 20,
        daily_used: 20,
        reset_at: "2026-02-27T00:00:00Z".to_string(),
    };
    let expected = "Credit Balance:\n  Daily  : 80 / 100 (used 20)\n  Bonus  : 20\n  Total  : 100\n  Resets : 2026-02-27T00:00:00Z";
    assert_eq!(format_balance(&balance), expected);
}

#[test]
fn test_format_credit_display_free_tier() {
    let status = CreditStatus { balance: 3, monthly_used: 12, tier: "free".to_string() };
    let display = format_credit_display(&status);
    assert!(display.contains("Credits: 3"), "Expected 'Credits: 3' in: {display}");
    assert!(display.contains("Free Tier"), "Expected 'Free Tier' in: {display}");
}

#[test]
fn test_format_credit_display_pro_tier() {
    let status = CreditStatus { balance: 0, monthly_used: 0, tier: "pro".to_string() };
    let display = format_credit_display(&status);
    assert!(display.contains("Pro Tier"), "Expected 'Pro Tier' in: {display}");
    assert!(display.contains("Unlimited"), "Expected 'Unlimited' in: {display}");
}

#[test]
fn test_capitalize() {
    assert_eq!(capitalize("pro"), "Pro");
    assert_eq!(capitalize("team"), "Team");
    assert_eq!(capitalize(""), "");
    assert_eq!(capitalize("X"), "X");
}

#[test]
fn test_load_missing_returns_none() {
    let result = TokenStore::try_load(Err("no such file".to_string()));
    assert!(result.is_none());
}

#[test]
fn test_load_token_present() {
    let token = load_token(Ok(TokenStore {
        access_token: "jwt-abc".to_string(),
        user_id: "user-123".to_string(),
    }))
    .unwrap();
    assert_eq!(token.access_token, "jwt-abc");
    assert_eq!(token.user_id, "user-123");
}
