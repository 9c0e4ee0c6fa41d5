use cla_commander::security::validation::{
    validate_memory_content, validate_session_context, InputValidator, JsonShape,
    ValidationError,
};
use cla_commander::security::{
    generate_token, hash_data, is_endpoint_allowed, sanitize_input, RateLimiter, SecurityConfig,
};

#[test]
fn test_sanitize_input() {
    let input = "  hello\x00world\x1f  ";
    let sanitized = sanitize_input(input);
    assert_eq!(sanitized, "helloworld");
}

#[test]
fn test_endpoint_validation() {
    let config = SecurityConfig::default();

    assert!(is_endpoint_allowed("https://ckc.cirkelline.com/api/v1", &config));
    assert!(is_endpoint_allowed("http://localhost:7779/health", &config));
    assert!(!is_endpoint_allowed("https://evil.com/api", &config));
}

#[test]
fn test_validate_text() {
    let validator = InputValidator::default();

    assert!(validator.validate_text("Hello, World!").is_ok());
    assert!(validator.validate_text("").is_err());
    assert!(validator.validate_text("test\0null").is_err());
}

#[test]
fn test_validate_path() {
    let validator = InputValidator::default();

    assert!(validator.validate_path("/home/user/document.txt").is_ok());
    assert!(validator.validate_path("/home/../etc/passwd").is_err());
    assert!(validator.validate_path("/test.exe").is_err());
}

#[test]
fn test_validate_url() {
    let validator = InputValidator::default();

    assert!(validator.validate_url("https://example.com").is_ok());
    assert!(validator.validate_url("http://localhost:8080").is_ok());
    assert!(validator.validate_url("ftp://example.com").is_err());
    assert!(validator.validate_url("https://example.com/<script>").is_err());
}

#[test]
fn test_sanitize_text() {
    let validator = InputValidator::default();

    let input = "Hello\x00World\x1f!";
    let sanitized = validator.sanitize_text(input);
    assert_eq!(sanitized, "HelloWorld!");
}

#[test]
fn test_sanitize_filename() {
    let validator = InputValidator::default();

    let input = "../etc/passwd";
    let sanitized = validator.sanitize_filename(input);
    assert_eq!(sanitized, "etcpasswd");

    let input2 = "my-file_name.txt";
    let sanitized2 = validator.sanitize_filename(input2);
    assert_eq!(sanitized2, "my-file_name.txt");
}

#[test]
fn test_endpoint_allowlist() {
    let config = SecurityConfig::default();

    assert!(is_endpoint_allowed("https://ckc.cirkelline.com/api/v1", &config));
    assert!(is_endpoint_allowed("http://localhost:7779/health", &config));
    assert!(!is_endpoint_allowed("https://malicious.com/api", &config));
}

#[test]
fn test_path_validation() {
    let validator = InputValidator::default();

    assert!(validator.validate_path("/home/user/document.txt").is_ok());
    assert!(validator.validate_path("/tmp/audio.wav").is_ok());

    assert!(validator.validate_path("../../etc/passwd").is_err());
    assert!(validator.validate_path("/path/with\0null").is_err());
}

#[test]
fn test_blocked_endpoints() {
    let config = SecurityConfig::default();

    let blocked = vec![
        "https://malicious.com/steal",
        "http://evil.org/api",
        "https://phishing.net/login",
        "file:///etc/passwd",
        "ftp://files.example.com",
    ];

    for endpoint in blocked {
        assert!(!is_endpoint_allowed(endpoint, &config), "Should block: {}", endpoint);
    }
}

#[test]
fn test_custom_allowlist() {
    let mut config = SecurityConfig::default();
    config.allowed_endpoints.push("https://custom.api.com".to_string());

    assert!(is_endpoint_allowed("https://custom.api.com/v1", &config));
}

#[test]
fn text_errors_by_kind() {
    let mut validator = InputValidator::new();
    assert_eq!(validator.validate_text(""), Err(ValidationError::Empty));
    assert_eq!(validator.validate_text("a\0b"), Err(ValidationError::InvalidCharacters));
    validator.set_max_text_length(4);
    assert_eq!(validator.validate_text("abcd"), Ok(()));
    assert_eq!(
        validator.validate_text("abcde"),
        Err(ValidationError::TooLong { max: 4, actual: 5 })
    );
    // Two characters of three bytes each.
    assert_eq!(
        validator.validate_text("\u{20ac}\u{20ac}"),
        Err(ValidationError::TooLong { max: 4, actual: 6 })
    );
}

#[test]
fn path_errors_by_kind() {
    let validator = InputValidator::new();
    assert_eq!(validator.validate_path(""), Err(ValidationError::Empty));
    assert_eq!(validator.validate_path("a/../b.txt"), Err(ValidationError::PathTraversal));
    assert_eq!(validator.validate_path("a\0.txt"), Err(ValidationError::InvalidCharacters));
    assert_eq!(
        validator.validate_path("/bin/tool.EXE"),
        Err(ValidationError::DisallowedExtension("EXE".to_string()))
    );
    assert_eq!(validator.validate_path("/photos/cat.JPG"), Ok(()));
    assert_eq!(validator.validate_path("/no/extension"), Ok(()));
    let long = "a".repeat(4097);
    assert_eq!(
        validator.validate_path(&long),
        Err(ValidationError::TooLong { max: 4096, actual: 4097 })
    );
}

#[test]
fn path_with_a_given_extension() {
    let mut validator = InputValidator::new();
    assert_eq!(validator.validate_path_with("report.final", Some("final")),
        Err(ValidationError::DisallowedExtension("final".to_string())));
    validator.add_extension("FINAL");
    assert_eq!(validator.validate_path_with("report.final", Some("final")), Ok(()));
    assert_eq!(validator.validate_path_with("report.Final", Some("Final")), Ok(()));
    assert_eq!(validator.validate_path_with("report", None), Ok(()));
    assert_eq!(
        validator.validate_path_with("..", Some("txt")),
        Err(ValidationError::PathTraversal)
    );
}

#[test]
fn url_errors_by_kind() {
    let validator = InputValidator::new();
    assert_eq!(validator.validate_url("example.com"), Err(ValidationError::InvalidUrl));
    assert_eq!(validator.validate_url(""), Err(ValidationError::InvalidUrl));
    assert_eq!(
        validator.validate_url("http://a/\"quoted\""),
        Err(ValidationError::InvalidCharacters)
    );
    assert_eq!(validator.validate_url("https://a/b>c"), Err(ValidationError::InvalidCharacters));
    assert_eq!(validator.validate_url("http://"), Ok(()));
}

#[test]
fn sanitizing_cuts_to_the_limit() {
    let mut validator = InputValidator::new();
    validator.set_max_text_length(5);
    assert_eq!(validator.sanitize_text("ab\x01cd\nef\tg"), "abcd\n");
    assert_eq!(validator.sanitize_text("a\r\n"), "a\r\n");
    let long = "x/".repeat(300);
    assert_eq!(validator.sanitize_filename(&long), "x".repeat(255));
}

#[test]
fn memory_content_needs_three_bytes() {
    assert_eq!(validate_memory_content("abc"), Ok(()));
    assert_eq!(
        validate_memory_content("ab"),
        Err(ValidationError::TooShort { min: 3, actual: 2 })
    );
    assert_eq!(validate_memory_content(""), Err(ValidationError::Empty));
    assert_eq!(validate_memory_content("a\0bc"), Err(ValidationError::InvalidCharacters));
}

#[test]
fn validation_messages() {
    assert_eq!(ValidationError::Empty.message(), "Input cannot be empty");
    assert_eq!(
        ValidationError::TooLong { max: 10, actual: 12 }.message(),
        "Input too long: 12 characters (max 10)"
    );
    assert_eq!(
        ValidationError::TooShort { min: 3, actual: 0 }.message(),
        "Input too short: 0 characters (min 3)"
    );
    assert_eq!(
        ValidationError::InvalidCharacters.message(),
        "Input contains invalid characters"
    );
    assert_eq!(ValidationError::InvalidEmail.message(), "Invalid email format");
    assert_eq!(ValidationError::InvalidUrl.message(), "Invalid URL format");
    assert_eq!(ValidationError::InvalidJson("eof".to_string()).message(), "Invalid JSON: eof");
    assert_eq!(ValidationError::PathTraversal.message(), "Path traversal detected");
    assert_eq!(
        ValidationError::DisallowedExtension("exe".to_string()).message(),
        "File extension not allowed: exe"
    );
    assert_eq!(ValidationError::Custom("as is".to_string()).message(), "as is");
}

#[test]
fn sanitize_input_keeps_inner_newlines() {
    assert_eq!(sanitize_input("a\nb\tc\rd"), "a\nb\tcd");
    assert_eq!(sanitize_input("\n x \n"), "x");
    assert_eq!(sanitize_input(""), "");
}

#[test]
fn default_security_configuration() {
    let config = SecurityConfig::default();
    assert_eq!(config.min_password_length, 8);
    assert_eq!(config.token_expiry_seconds, 3600);
    assert_eq!(config.max_login_attempts, 5);
    assert_eq!(config.lockout_duration_seconds, 300);
    assert!(config.encrypt_local_storage);
    assert_eq!(
        config.allowed_endpoints,
        vec![
            "https://ckc.cirkelline.com".to_string(),
            "https://api.cirkelline.com".to_string(),
            "http://localhost:7779".to_string()
        ]
    );
}

#[test]
fn file_names_lose_only_the_dots_that_name_directories() {
    let validator = InputValidator::new();
    // Names made of allowed characters come back as they are.
    assert_eq!(validator.sanitize_filename("archive.tar.gz"), "archive.tar.gz");
    assert_eq!(validator.sanitize_filename("a..b"), "a..b");
    assert_eq!(validator.sanitize_filename("a...b.c"), "a...b.c");
    assert_eq!(validator.sanitize_filename(".hidden"), ".hidden");
    assert_eq!(validator.sanitize_filename(".."), "..");
    assert_eq!(validator.sanitize_filename("-_."), "-_.");
    // Dots right before or behind a separator leave with it.
    assert_eq!(validator.sanitize_filename("../.."), "");
    assert_eq!(validator.sanitize_filename("..\\..\\windows\\system32"), "windowssystem32");
    assert_eq!(validator.sanitize_filename("./run.sh"), "run.sh");
    assert_eq!(validator.sanitize_filename("dir/.hidden"), "dirhidden");
    assert_eq!(validator.sanitize_filename("a/...b"), "ab");
    assert_eq!(validator.sanitize_filename("a.../b..c"), "ab..c");
    assert_eq!(validator.sanitize_filename("a. /b"), "a.b");
    assert_eq!(validator.sanitize_filename("/etc/passwd"), "etcpasswd");
    // Other characters are removed without touching the dots around them.
    assert_eq!(validator.sanitize_filename("a.:.b"), "a..b");
    assert_eq!(validator.sanitize_filename("r\u{e9}sum\u{e9} (1).pdf"), "r\u{e9}sum\u{e9}1.pdf");
    let long = format!("{}.txt", "x".repeat(300));
    assert_eq!(validator.sanitize_filename(&long), "x".repeat(255));
}

#[test]
fn test_validate_email() {
    let validator = InputValidator::default();

    assert!(validator.validate_email("user@example.com").is_ok());
    assert!(validator.validate_email("user@sub.example.com").is_ok());
    assert!(validator.validate_email("invalid").is_err());
    assert!(validator.validate_email("@example.com").is_err());
}

#[test]
fn test_email_validation() {
    let validator = InputValidator::default();

    assert!(validator.validate_email("user@cirkelline.com").is_ok());
    assert!(validator.validate_email("admin@sub.domain.com").is_ok());
    assert!(validator.validate_email("invalid").is_err());
    assert!(validator.validate_email("@nodomain").is_err());
}

#[test]
fn email_grammar_edges() {
    let validator = InputValidator::new();
    let ok = |text: &str| validator.validate_email(text) == Ok(());
    let refused = |text: &str| validator.validate_email(text) == Err(ValidationError::InvalidEmail);
    assert!(ok("a@b.cd"));
    assert!(ok("first.last+tag%x_y-z@my-host.example.ORG"));
    assert!(ok("a@b..cd"));
    assert!(ok("a@-.cd"));
    assert!(ok("1@2.ab"));
    assert!(refused(""));
    assert!(refused("a@b.c"));
    assert!(refused("a@.cd"));
    assert!(refused("a@b.c1"));
    assert!(refused("a@b.cd "));
    assert!(refused(" a@b.cd"));
    assert!(refused("a@b.cd\n"));
    assert!(refused("a@@b.cd"));
    assert!(refused("a@b@c.de"));
    assert!(refused("a b@c.de"));
    assert!(refused("a@b_c.de"));
    assert!(refused("a@bcd"));
    assert!(refused("a.b.cd"));
    assert!(refused("\u{e9}@b.cd"));
    assert!(refused("a@b.c\u{e9}"));
    assert!(refused("a@b.cd."));
}

#[test]
fn test_validate_json() {
    let validator = InputValidator::default();

    assert!(validator.validate_json(r#"{"key": "value"}"#).is_ok());
    assert!(validator.validate_json("not json").is_err());
}

#[test]
fn json_errors_by_kind() {
    let validator = InputValidator::new();
    assert_eq!(validator.validate_json(""), Err(ValidationError::Empty));
    assert_eq!(validator.validate_json("\"a\0\""), Err(ValidationError::InvalidCharacters));
    assert_eq!(
        validator.validate_json("[1, 2"),
        Err(ValidationError::InvalidJson("EOF while parsing a list at line 1 column 5".to_string()))
    );
    let value = validator.validate_json("[1, {\"a\": null}]").unwrap();
    assert_eq!(value[0], 1);
    assert!(value[1]["a"].is_null());
}

fn nested(levels: usize) -> JsonShape {
    let mut shape = JsonShape::Leaf;
    for level in 0..levels {
        shape = if level % 2 == 0 {
            JsonShape::Object(vec![JsonShape::Leaf, shape])
        } else {
            JsonShape::Array(vec![shape, JsonShape::Leaf])
        };
    }
    shape
}

#[test]
fn test_validate_session_context() {
    let shallow = JsonShape::Object(vec![JsonShape::Object(vec![JsonShape::Leaf])]);
    assert!(validate_session_context(&shallow).is_ok());

    let mut deep = JsonShape::Leaf;
    for _ in 0..15 {
        deep = JsonShape::Object(vec![deep]);
    }
    assert!(validate_session_context(&deep).is_err());
}

#[test]
fn session_context_depth_limit() {
    assert_eq!(validate_session_context(&JsonShape::Leaf), Ok(()));
    assert_eq!(validate_session_context(&JsonShape::Array(vec![])), Ok(()));
    assert_eq!(validate_session_context(&nested(10)), Ok(()));
    assert_eq!(
        validate_session_context(&nested(11)),
        Err(ValidationError::Custom("JSON too deeply nested".to_string()))
    );
    let wide = JsonShape::Array(vec![nested(3), nested(10), nested(2)]);
    assert_eq!(
        validate_session_context(&wide),
        Err(ValidationError::Custom("JSON too deeply nested".to_string()))
    );
    let wide = JsonShape::Array(vec![nested(3), nested(9), nested(2)]);
    assert_eq!(validate_session_context(&wide), Ok(()));
}

#[test]
fn mod_test_rate_limiter() {
    let mut limiter = RateLimiter::new(3, 60);

    assert!(limiter.check("user1"));
    assert!(limiter.check("user1"));
    assert!(limiter.check("user1"));
    assert!(!limiter.check("user1")); // Should be blocked
    assert!(limiter.check("user2")); // Different user OK
}

#[test]
fn keyed_limiter_window_slides() {
    const SECOND: u128 = 1_000_000_000;
    let mut limiter = RateLimiter::new(2, 10);
    assert_eq!(limiter.remaining_at("a", 0), 2);
    assert!(limiter.check_at("a", 0));
    assert!(limiter.check_at("a", 4 * SECOND));
    assert_eq!(limiter.remaining_at("a", 5 * SECOND), 0);
    assert!(!limiter.check_at("a", 9 * SECOND));
    assert_eq!(limiter.remaining_at("b", 9 * SECOND), 2);
    // The first request leaves the window after ten seconds, the second later.
    assert_eq!(limiter.remaining_at("a", 10 * SECOND - 1), 0);
    assert_eq!(limiter.remaining_at("a", 10 * SECOND), 1);
    assert!(limiter.check_at("a", 10 * SECOND));
    assert!(!limiter.check_at("a", 13 * SECOND));
    assert!(limiter.check_at("a", 14 * SECOND));
    assert_eq!(limiter.remaining_at("a", 30 * SECOND), 2);
    assert_eq!(limiter.remaining("a"), 0);

    let mut none = RateLimiter::new(0, 10);
    assert!(!none.check("a"));
    assert_eq!(none.remaining("a"), 0);
}

#[test]
fn test_hash_data() {
    let hash1 = hash_data(b"test");
    let hash2 = hash_data(b"test");
    let hash3 = hash_data(b"different");

    assert_eq!(hash1, hash2);
    assert_ne!(hash1, hash3);
}

#[test]
fn test_hash_consistency() {
    let hash1 = hash_data(b"test_data");
    let hash2 = hash_data(b"test_data");
    let hash3 = hash_data(b"different_data");

    assert_eq!(hash1, hash2, "Same input should produce same hash");
    assert_ne!(hash1, hash3, "Different input should produce different hash");
}

#[test]
fn known_hashes() {
    assert_eq!(hash_data(b"test"), "n4bQgYhMfWWaL+qgxVrQFaO/TxsrC4Is0V1sFbDwCgg=");
    assert_eq!(hash_data(b""), "47DEQpj8HBSa+/TImW+5JCeuQeRkm5NMpJWZG3hSuFU=");
}

#[test]
fn tokens_are_random_and_as_long_as_asked() {
    assert_eq!(generate_token(0), "");
    assert_eq!(generate_token(1).len(), 4);
    assert_eq!(generate_token(3).len(), 4);
    assert_eq!(generate_token(32).len(), 44);
    assert_ne!(generate_token(32), generate_token(32));
    assert!(generate_token(2).ends_with('='));
}

#[test]
fn test_email_validation_comprehensive() {
    let validator = InputValidator::default();

    let valid = vec![
        "user@example.com",
        "user.name@example.co.uk",
        "user+tag@example.org",
        "123@example.com",
    ];

    for email in valid {
        assert!(validator.validate_email(email).is_ok(), "Should accept: {}", email);
    }

    let invalid = vec![
        "not-an-email",
        "@nodomain.com",
        "user@",
        "user@.com",
        "",
        "user@domain",
        "user name@example.com",
    ];

    for email in invalid {
        assert!(validator.validate_email(email).is_err(), "Should reject: {}", email);
    }
}
