use gh_flow::test_auth::base::AuthConfig;
use gh_flow::test_auth::login::{authenticate, LoginCredentials};
use gh_flow::test_auth::oauth::{oauth_authenticate, OAuthProvider};
use gh_flow::test_auth::profile::UserProfile;
use gh_flow::test_auth::signup::{register_user, SignupData};

#[test]
fn test_auth_config_creation() {
    let config = AuthConfig::new("test_secret");
    assert_eq!(config.secret_key, "test_secret");
    assert_eq!(config.token_expiry, 3600);
}

#[test]
fn auth_config_limits_attempts() {
    let config = AuthConfig::new("s");
    assert_eq!(config.max_attempts, 5);
    assert_eq!(config.lockout_duration, 900);
}

#[test]
fn test_login_success() {
    let config = AuthConfig::new("secret");
    let creds = LoginCredentials {
        username: "user1".to_string(),
        password: "pass123".to_string(),
    };
    assert!(authenticate(&creds, &config).is_ok());
}

#[test]
fn login_token_joins_name_and_secret() {
    let config = AuthConfig::new("secret");
    let creds = LoginCredentials {
        username: "user1".to_string(),
        password: "pass123".to_string(),
    };
    assert_eq!(authenticate(&creds, &config), Ok("user1_secret".to_string()));
}

#[test]
fn test_login_failure() {
    let config = AuthConfig::new("secret");
    let creds = LoginCredentials {
        username: "".to_string(),
        password: "pass123".to_string(),
    };
    assert!(authenticate(&creds, &config).is_err());
}

#[test]
fn login_without_password_is_refused() {
    let config = AuthConfig::new("secret");
    let creds = LoginCredentials {
        username: "user1".to_string(),
        password: "".to_string(),
    };
    assert_eq!(
        authenticate(&creds, &config),
        Err("Invalid credentials".to_string())
    );
}

#[test]
fn test_oauth_google() {
    let config = AuthConfig::new("secret");
    let result = oauth_authenticate(OAuthProvider::Google, "auth_code", &config);
    assert!(result.is_ok());
}

#[test]
fn oauth_token_names_the_provider() {
    let config = AuthConfig::new("secret");
    let token = match oauth_authenticate(OAuthProvider::GitHub, "abc", &config) {
        Ok(token) => token,
        Err(e) => panic!("refused: {}", e),
    };
    assert_eq!(token.provider, "github");
    assert_eq!(token.access_token, "github_abc");
    assert_eq!(token.refresh_token, Some("refresh_token".to_string()));
    let token = match oauth_authenticate(OAuthProvider::Facebook, "x", &config) {
        Ok(token) => token,
        Err(e) => panic!("refused: {}", e),
    };
    assert_eq!(token.access_token, "facebook_x");
}

#[test]
fn oauth_empty_code_is_refused() {
    let config = AuthConfig::new("secret");
    match oauth_authenticate(OAuthProvider::Google, "", &config) {
        Ok(_) => panic!("an empty code was accepted"),
        Err(e) => assert_eq!(e, "Invalid OAuth code"),
    }
}

#[test]
fn test_profile_creation() {
    let profile = UserProfile::new("user123", "user@example.com");
    assert_eq!(profile.user_id, "user123");
    assert_eq!(profile.display_name, "user123");
}

#[test]
fn test_profile_update() {
    let mut profile = UserProfile::new("user123", "user@example.com");
    profile.update_display_name("New Name".to_string());
    assert_eq!(profile.display_name, "New Name");
}

#[test]
fn profile_avatar_is_set() {
    let mut profile = UserProfile::new("user123", "user@example.com");
    assert_eq!(profile.avatar_url, None);
    profile.set_avatar("https://example.com/a.png".to_string());
    assert_eq!(profile.avatar_url, Some("https://example.com/a.png".to_string()));
    assert_eq!(profile.email, "user@example.com");
}

#[test]
fn test_signup_success() {
    let config = AuthConfig::new("secret");
    let data = SignupData {
        username: "newuser".to_string(),
        email: "user@example.com".to_string(),
        password: "password123".to_string(),
    };
    assert!(register_user(&data, &config).is_ok());
}

#[test]
fn signup_message_names_the_user() {
    let config = AuthConfig::new("secret");
    let data = SignupData {
        username: "newuser".to_string(),
        email: "user@example.com".to_string(),
        password: "password123".to_string(),
    };
    assert_eq!(
        register_user(&data, &config),
        Ok("User newuser registered".to_string())
    );
}

#[test]
fn test_signup_invalid_email() {
    let config = AuthConfig::new("secret");
    let data = SignupData {
        username: "newuser".to_string(),
        email: "invalid".to_string(),
        password: "password123".to_string(),
    };
    assert!(register_user(&data, &config).is_err());
}

#[test]
fn signup_errors_come_in_order() {
    let config = AuthConfig::new("secret");
    let short_name = SignupData {
        username: "ab".to_string(),
        email: "invalid".to_string(),
        password: "short".to_string(),
    };
    assert_eq!(
        register_user(&short_name, &config),
        Err("Username too short".to_string())
    );
    let bad_email = SignupData {
        username: "abc".to_string(),
        email: "invalid".to_string(),
        password: "short".to_string(),
    };
    assert_eq!(
        register_user(&bad_email, &config),
        Err("Invalid email".to_string())
    );
    let short_password = SignupData {
        username: "abc".to_string(),
        email: "a@b".to_string(),
        password: "1234567".to_string(),
    };
    assert_eq!(
        register_user(&short_password, &config),
        Err("Password too short".to_string())
    );
}
