use ujumbe_sms::client::{build_headers, handle_messaging_response};
use ujumbe_sms::endpoint::ApiEndpoint;
use ujumbe_sms::errors::UjumbeSmsError;
use ujumbe_sms::json::JsonError;
use ujumbe_sms::models::{
    DateTime, Items, MessageHistoryApiResponse, MessageHistoryMetaInfo, MessageRequest,
    MessageSent, StatusInfo,
};
use ujumbe_sms::UjumbeSmsConfig;

fn sample_record(id: i64, number: &str, status: &str) -> MessageSent {
    MessageSent {
        id,
        request_id: id + 1000,
        number: number.to_string(),
        message: "hello".to_string(),
        user_id: 7,
        sender_id: "UjumbeSMS".to_string(),
        transaction_id: format!("tx-{}", id),
        message_count: 1,
        status: status.to_string(),
        flag: "sent".to_string(),
        created_at: "2015-08-15 18:19:47".to_string(),
        updated_at: "2015-08-15 18:20:47".to_string(),
        scheduled_date: "".to_string(),
    }
}

fn sample_history(records: Vec<MessageSent>) -> MessageHistoryApiResponse {
    let total = records.len() as i32;
    MessageHistoryApiResponse {
        status: StatusInfo {
            code: "1008".to_string(),
            type_: "success".to_string(),
            description: "Messages fetched".to_string(),
        },
        meta: Some(MessageHistoryMetaInfo {
            user: "test@email.com".to_string(),
            date_time: DateTime {
                date: "20150815 18:19:47".to_string(),
                timezone_type: 3,
                timezone: "Africa/Nairobi".to_string(),
            },
        }),
        items: Items {
            total,
            per_page: 10,
            current_page: 1,
            last_page: 1,
            next_page_url: Some("http://host/api/messages?page=2".to_string()),
            prev_page_url: None,
            from: 1,
            to: total,
            data: records,
        },
    }
}

#[test]
fn test_add_message_bag_keeps_order_and_count() {
    let mut request = MessageRequest::new();
    assert_eq!(request.data.len(), 0);
    request.add_message_bag("1".to_string(), "a".to_string(), "S".to_string());
    request.add_message_bag("2".to_string(), "b".to_string(), "S".to_string());
    request.add_message_bag("3".to_string(), "c".to_string(), "S".to_string());
    assert_eq!(request.data.len(), 3);
    assert_eq!(request.data[0].message_bag.numbers, "1");
    assert_eq!(request.data[1].message_bag.numbers, "2");
    assert_eq!(request.data[2].message_bag.numbers, "3");
    assert_eq!(request.data[0].message_bag.message, "a");
    assert_eq!(request.data[2].message_bag.sender, "S");
}

#[test]
fn test_history_json_round_trip() {
    let original = sample_history(vec![
        sample_record(1, "254720215635", "DeliveredToTerminal"),
        sample_record(2, "254712345678", "Pending"),
    ]);
    let text = original.to_json();
    let parsed = MessageHistoryApiResponse::from_json(&text).unwrap();
    assert_eq!(parsed, original);
}

#[test]
fn test_history_json_round_trip_without_meta() {
    let mut original = sample_history(vec![]);
    original.meta = None;
    original.items.next_page_url = None;
    let text = original.to_json();
    assert!(text.contains("\"meta\":null"));
    let parsed = MessageHistoryApiResponse::from_json(&text).unwrap();
    assert_eq!(parsed, original);
}

#[test]
fn test_history_json_round_trip_escapes_and_extremes() {
    let mut record = sample_record(i64::MAX, "254700000001", "InvalidNumber");
    record.request_id = i64::MIN;
    record.message = "line1\nline2\t\"quoted\" back\\slash \u{1} end".to_string();
    let mut original = sample_history(vec![record]);
    original.items.total = i32::MIN;
    original.items.to = i32::MAX;
    original.status.description = "desc with \"quotes\"".to_string();
    let text = original.to_json();
    let parsed = MessageHistoryApiResponse::from_json(&text).unwrap();
    assert_eq!(parsed, original);
}

#[test]
fn test_delivered_and_failed_projections() {
    let history = sample_history(vec![
        sample_record(1, "254720215635", "DeliveredToTerminal"),
        sample_record(2, "254712345678", "Blacklisted by carrier"),
        sample_record(3, "254712345679", "Pending"),
        sample_record(4, "254712345680", "InvalidMsisdn"),
        sample_record(5, "254712345681", "DeliveredToTerminal"),
    ]);
    let delivered = history.get_delivered_messages();
    assert_eq!(delivered.len(), 2);
    assert_eq!(delivered[0].id, 1);
    assert_eq!(delivered[1].id, 5);
    assert!(delivered.iter().all(|m| m.status == "DeliveredToTerminal"));

    let failed = history.get_failed_messages();
    assert_eq!(failed.len(), 2);
    assert_eq!(failed[0].id, 2);
    assert_eq!(failed[1].id, 4);

    // The two projections are disjoint, and "Pending" is in neither.
    assert!(failed.iter().all(|f| delivered.iter().all(|d| d.id != f.id)));
    assert!(delivered.iter().all(|m| m.status != "Pending"));
    assert!(failed.iter().all(|m| m.status != "Pending"));
}

#[test]
fn test_messages_by_number_returns_exact_record() {
    let history = sample_history(vec![
        sample_record(1, "254712345678", "DeliveredToTerminal"),
        sample_record(2, "254720215635", "Pending"),
        sample_record(3, "254712345679", "DeliveredToTerminal"),
    ]);
    let matching = history.get_messages_by_number("254720215635");
    assert_eq!(matching.len(), 1);
    assert_eq!(*matching[0], history.items.data[1]);
    // No prefix normalization: a suffix match is no match.
    assert_eq!(history.get_messages_by_number("720215635").len(), 0);
}

#[test]
fn test_invalid_api_key_fails_before_any_network_use() {
    let config = UjumbeSmsConfig::new(
        "key-with\nnewline".to_string(),
        "test@example.com".to_string(),
    );
    match build_headers(&config) {
        Err(UjumbeSmsError::InvalidConfig(msg)) => {
            assert_eq!(msg, "Invalid API key format");
        }
        _ => panic!("Expected InvalidConfig for a key holding a newline"),
    }
}

#[test]
fn test_invalid_email_fails_before_any_network_use() {
    let config = UjumbeSmsConfig::new(
        "good_key".to_string(),
        "bad\u{7f}email@example.com".to_string(),
    );
    match build_headers(&config) {
        Err(UjumbeSmsError::InvalidConfig(msg)) => {
            assert_eq!(msg, "Invalid email format");
        }
        _ => panic!("Expected InvalidConfig for an email holding DEL"),
    }
}

#[test]
fn test_default_base_url_and_headers() {
    let config = UjumbeSmsConfig::new("k".to_string(), "e@example.com".to_string());
    assert_eq!(config.base_url, "https://ujumbesms.co.ke");
    let headers = build_headers(&config).unwrap();
    assert_eq!(headers.len(), 4);
    assert_eq!(headers[0], ("X-Authorization".to_string(), "k".to_string()));
    assert_eq!(headers[1], ("Email".to_string(), "e@example.com".to_string()));
    assert_eq!(
        headers[2],
        ("Content-Type".to_string(), "application/json".to_string())
    );
    assert_eq!(headers[3], ("Cache-Control".to_string(), "no-cache".to_string()));
}

#[test]
fn test_from_json_rejects_bad_text() {
    match MessageHistoryApiResponse::from_json("{not json") {
        Err(e) => assert_eq!(e, JsonError::Syntax),
        Ok(_) => panic!("Expected a syntax error"),
    }
    match MessageHistoryApiResponse::from_json("{\"status\":5}") {
        Err(e) => assert_eq!(e, JsonError::Shape),
        Ok(_) => panic!("Expected a shape error"),
    }
    // An integer outside i64 range does not lex.
    match MessageHistoryApiResponse::from_json("{\"status\":99999999999999999999999}") {
        Err(e) => assert_eq!(e, JsonError::Syntax),
        Ok(_) => panic!("Expected a syntax error for an oversized integer"),
    }
}

#[test]
fn test_success_status_with_error_shaped_body_is_serialization_error() {
    // HTTP status decides success; a 200 with an error-shaped body (no meta)
    // fails as a serialization error, never as a typed success.
    let body = "{\"status\":{\"code\":\"1001\",\"type\":\"error\",\"description\":\"x\"}}";
    match handle_messaging_response(200, "200 OK".to_string(), body.to_string()) {
        Err(UjumbeSmsError::SerializationError(e)) => assert_eq!(e, JsonError::Shape),
        _ => panic!("Expected SerializationError"),
    }
}

#[test]
fn test_messaging_response_with_null_meta() {
    let body = "{\"status\":{\"code\":\"1001\",\"type\":\"error\",\"description\":\"x\"},\"meta\":null}";
    let resp = handle_messaging_response(200, "200 OK".to_string(), body.to_string()).unwrap();
    assert!(resp.meta.is_none());
    assert_eq!(resp.status.code, "1001");
}

#[test]
fn test_empty_request_body() {
    let request = MessageRequest::new();
    assert_eq!(
        ujumbe_sms::client::messaging_request_body(&request),
        "{\"data\":[]}"
    );
}

#[test]
fn test_endpoint_paths() {
    assert_eq!(ApiEndpoint::Messaging.as_str(), "/api/messaging");
    assert_eq!(ApiEndpoint::Balances.as_str(), "/api/balance");
    assert_eq!(ApiEndpoint::Messages.as_str(), "/api/messages");
    assert_eq!(ApiEndpoint::from_str("/api/messaging"), Ok(ApiEndpoint::Messaging));
    assert_eq!(ApiEndpoint::from_str("/api/balance"), Ok(ApiEndpoint::Balances));
    assert_eq!(ApiEndpoint::from_str("/api/messages"), Ok(ApiEndpoint::Messages));
    assert_eq!(ApiEndpoint::from_str("/api/other"), Err(()));
}

#[test]
fn test_balance_meta_without_extra_field_also_parses() {
    let body = "{\"status\":{\"code\":\"1008\",\"type\":\"success\",\"description\":\"ok\"},\
                \"meta\":{\"user\":\"u\",\"credits\":10,\"rate\":1,\
                \"date_time\":{\"date\":\"d\",\"timezone_type\":3,\"timezone\":\"UTC\"}}}";
    let resp =
        ujumbe_sms::client::handle_balance_response(200, "200 OK".to_string(), body.to_string())
            .unwrap();
    assert_eq!(resp.meta.unwrap().credits, 10);
}

#[test]
fn test_history_fixture_text_parses() {
    let body = "{\"status\":{\"code\":\"1008\",\"type\":\"success\",\"description\":\"ok\"},\
                \"meta\":null,\
                \"items\":{\"total\":1,\"per_page\":10,\"current_page\":1,\"last_page\":1,\
                \"next_page_url\":null,\"prev_page_url\":null,\"from\":1,\"to\":1,\
                \"data\":[{\"id\":5,\"request_id\":6,\"number\":\"254712345678\",\
                \"message\":\"hi\",\"user_id\":1,\"sender_id\":\"S\",\"transaction_id\":\"t\",\
                \"message_count\":1,\"status\":\"DeliveredToTerminal\",\"flag\":\"f\",\
                \"created_at\":\"c\",\"updated_at\":\"u\",\"scheduled_date\":\"\"}]}}";
    let resp = MessageHistoryApiResponse::from_json(body).unwrap();
    assert_eq!(resp.items.data.len(), 1);
    assert_eq!(resp.items.data[0].id, 5);
    assert_eq!(resp.get_delivered_messages().len(), 1);
}
