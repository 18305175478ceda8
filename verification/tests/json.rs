use rustacean::json::encode_crate;
use rustacean::json::encode_crate_array;
use rustacean::json::encode_rustacean;
use rustacean::json::encode_rustacean_array;
use rustacean::json::render_body;
use rustacean::models::Crate;
use rustacean::models::Rustacean;
use rustacean::routes::ResponseBody;

fn sample_rustacean() -> Rustacean {
    Rustacean {
        id: 1,
        name: "Fox and a Hedge".to_string(),
        email: "fox@hedge.com".to_string(),
        created_at: 1_700_000_000,
    }
}

#[test]
fn test_encode_rustacean_record() {
    let s = encode_rustacean(&sample_rustacean());
    assert_eq!(
        s,
        "{\"id\":1,\"name\":\"Fox and a Hedge\",\"email\":\"fox@hedge.com\",\"created_at\":1700000000}"
    );
}

#[test]
fn test_encode_crate_record() {
    let a_crate = Crate {
        id: 7,
        rustacean_id: 1,
        code: "foo".to_string(),
        name: "Baz crate".to_string(),
        version: "0.1".to_string(),
        description: "The Crate Description".to_string(),
        created_at: 1_700_000_000,
    };
    let s = encode_crate(&a_crate);
    assert_eq!(
        s,
        "{\"id\":7,\"rustacean_id\":1,\"code\":\"foo\",\"name\":\"Baz crate\",\"version\":\"0.1\",\"description\":\"The Crate Description\",\"created_at\":1700000000}"
    );
}

#[test]
fn test_encode_escapes_and_negative_numbers() {
    let tricky = Rustacean {
        id: 2,
        name: "quote \" backslash \\ newline \n tab \t bell \u{7}".to_string(),
        email: "t@t".to_string(),
        created_at: -5,
    };
    let s = encode_rustacean(&tricky);
    assert_eq!(
        s,
        "{\"id\":2,\"name\":\"quote \\\" backslash \\\\ newline \\n tab \\t bell \\u0007\",\"email\":\"t@t\",\"created_at\":-5}"
    );
}

#[test]
fn test_encode_arrays() {
    let empty: Vec<Rustacean> = Vec::new();
    assert_eq!(encode_rustacean_array(&empty), "[]");

    let one = vec![sample_rustacean()];
    assert_eq!(
        encode_rustacean_array(&one),
        "[{\"id\":1,\"name\":\"Fox and a Hedge\",\"email\":\"fox@hedge.com\",\"created_at\":1700000000}]"
    );

    let two = vec![
        Crate {
            id: 1,
            rustacean_id: 1,
            code: "a".to_string(),
            name: "A".to_string(),
            version: "1".to_string(),
            description: "d".to_string(),
            created_at: 0,
        },
        Crate {
            id: 2,
            rustacean_id: 1,
            code: "b".to_string(),
            name: "B".to_string(),
            version: "2".to_string(),
            description: "e".to_string(),
            created_at: 0,
        },
    ];
    assert_eq!(
        encode_crate_array(&two),
        "[{\"id\":1,\"rustacean_id\":1,\"code\":\"a\",\"name\":\"A\",\"version\":\"1\",\"description\":\"d\",\"created_at\":0},{\"id\":2,\"rustacean_id\":1,\"code\":\"b\",\"name\":\"B\",\"version\":\"2\",\"description\":\"e\",\"created_at\":0}]"
    );
}

#[test]
fn test_render_error_body() {
    let body = ResponseBody::ErrorMessage("Error".to_string());
    assert_eq!(render_body(&body), "\"Error\"");
}

#[test]
fn test_render_empty_body() {
    assert_eq!(render_body(&ResponseBody::Empty), "");
}
