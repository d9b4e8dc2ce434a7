use immuxdb::connectors::client::{decimal_string, HttpMethod, ImmuxDBClient, ImmuxDBClientError};
use immuxdb::cortices::unicus::http::parse_path;

#[test]
fn decimal_strings() {
    assert_eq!(decimal_string(0), "0");
    assert_eq!(decimal_string(7), "7");
    assert_eq!(decimal_string(10), "10");
    assert_eq!(decimal_string(120), "120");
    assert_eq!(decimal_string(u128::MAX), u128::MAX.to_string());
}

#[test]
fn unit_requests() {
    let client = ImmuxDBClient::new("localhost:1991").unwrap();

    let request = client.get_by_id_request("users", 42);
    assert_eq!(request.method, HttpMethod::Get);
    assert_eq!(request.url, "http://localhost:1991/users/42");
    assert_eq!(request.body, "");

    let request = client.inspect_by_id_request("users", 42);
    assert_eq!(request.method, HttpMethod::Get);
    assert_eq!(request.url, "http://localhost:1991/users/42?inspect");

    let request = client.revert_by_id_request("users", 42, 3);
    assert_eq!(request.method, HttpMethod::Put);
    assert_eq!(request.url, "http://localhost:1991/users/42?revert=3");
    assert_eq!(request.body, "");

    let request = client.set_unit_request("users", 7, "{\"a\":1}");
    assert_eq!(request.method, HttpMethod::Put);
    assert_eq!(request.url, "http://localhost:1991/users/7");
    assert_eq!(request.body, "{\"a\":1}");
}

#[test]
fn query_requests() {
    let client = ImmuxDBClient::new("h").unwrap();

    let request = client.get_by_property_name_request("users", "age", "30");
    assert_eq!(request.method, HttpMethod::Get);
    assert_eq!(request.url, "http://h/users?select=name_property&age=30");

    let request = client.create_index_request("users", "age");
    assert_eq!(request.method, HttpMethod::Put);
    assert_eq!(request.url, "http://h/users?index=age");

    let request = client.switch_chain_request("main");
    assert_eq!(request.method, HttpMethod::Put);
    assert_eq!(request.url, "http://h/?chain=main");
}

#[test]
fn batch_request_lines() {
    let client = ImmuxDBClient::new("h").unwrap();
    let units = vec![(1u128, "a".to_string()), (20u128, "b".to_string())];
    let request = client.set_batch_units_request("g", &units);
    assert_eq!(request.method, HttpMethod::Put);
    assert_eq!(request.url, "http://h/g/internal_api_target_id_identifier");
    assert_eq!(request.body, "1|a\r\n20|b");

    let request = client.set_batch_units_request("g", &[]);
    assert_eq!(request.body, "");
}

#[test]
fn server_reads_back_client_heights() {
    let client = ImmuxDBClient::new("h").unwrap();
    for height in [0u64, 9, 10, 12345, u64::MAX] {
        let request = client.revert_by_id_request("g", 1, height);
        let path = request.url.strip_prefix("http://h").unwrap().to_string();
        let info = parse_path(&path).unwrap();
        assert_eq!(info.extract_numeric_query("revert").unwrap(), height);
    }
}

#[test]
fn client_error_wraps_reqwest_error() {
    let error = reqwest::blocking::get("not a url").unwrap_err();
    assert!(matches!(ImmuxDBClientError::from(error), ImmuxDBClientError::Reqwest(_)));
}
