use concord::rest::invites::invite_code_from;

#[test]
fn codes_are_extracted_from_every_form_a_user_might_paste() {
    let code = Some("aBc-123".to_string());

    assert_eq!(invite_code_from("aBc-123"), code);
    assert_eq!(invite_code_from("discord.gg/aBc-123"), code);
    assert_eq!(invite_code_from("https://discord.gg/aBc-123"), code);
    assert_eq!(invite_code_from("http://discord.gg/aBc-123"), code);
    assert_eq!(invite_code_from("https://discord.com/invite/aBc-123"), code);
    assert_eq!(invite_code_from("  https://discord.gg/aBc-123/  "), code);

    assert_eq!(invite_code_from("https://discord.gg/aBc-123?event=98765"), code);
}

#[test]
fn things_that_are_not_invites_are_rejected() {
    assert_eq!(invite_code_from(""), None);
    assert_eq!(invite_code_from("   "), None);
    assert_eq!(invite_code_from("https://discord.gg/a b"), None);
    assert_eq!(invite_code_from("hello there"), None);
}
