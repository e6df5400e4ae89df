use ujumbe_sms::client::{
    build_headers, build_url, handle_balance_response, handle_messaging_response,
    messaging_request_body,
};
use ujumbe_sms::endpoint::ApiEndpoint;
use ujumbe_sms::errors::UjumbeSmsError;
use ujumbe_sms::models::MessageRequest;
use ujumbe_sms::UjumbeSmsConfig;

#[test]
fn test_send_single_message() {
    let url = "http://127.0.0.1:1234".to_string();
    let config = UjumbeSmsConfig::new("test_api_key".to_string(), "test@example.com".to_string())
        .with_base_url(url.clone());

    // The POST goes to the messaging endpoint with the JSON content type.
    assert_eq!(build_url(&config, &ApiEndpoint::Messaging), format!("{}{}", url, "/api/messaging"));
    let headers = build_headers(&config).unwrap();
    assert!(headers.iter().any(|(k, v)| k == "Content-Type" && v == "application/json"));

    let mut request = MessageRequest::new();
    request.add_message_bag(
        "254712345678".to_string(),
        "Single test message".to_string(),
        "UjumbeSMS".to_string(),
    );
    let body = messaging_request_body(&request);
    assert!(body.contains("Single test message"));

    let response_body = r#"{
                    "status": {
                        "code": "1008",
                        "type": "success",
                        "description": "Your messages have been queued"
                    },
                    "meta": {
                        "recipients": 1,
                        "credits_deducted": 1,
                        "available_credits": "6608",
                        "user_email": "test@email.com",
                        "date_time": {
                            "date": "20150815 18:19:47",
                            "timezone_type": 3,
                            "timezone": "Africa/Nairobi"
                        }
                    }
                }"#;
    let result = handle_messaging_response(200, "200 OK".to_string(), response_body.to_string());

    assert!(result.is_ok());
    let response = result.unwrap();
    assert_eq!(response.status.code, "1008");
    assert_eq!(response.status.type_, "success");
    assert_eq!(response.meta.clone().unwrap().recipients, 1);
    assert_eq!(response.meta.clone().unwrap().credits_deducted, 1);
    assert_eq!(response.meta.clone().unwrap().user_email, "test@email.com");
    assert_eq!(response.meta.clone().unwrap().available_credits, "6608");
}

#[test]
fn test_send_multiple_messages() {
    let url = "http://127.0.0.1:1234".to_string();
    let config = UjumbeSmsConfig::new("test_api_key".to_string(), "test@email.com".to_string())
        .with_base_url(url.clone());
    assert_eq!(build_url(&config, &ApiEndpoint::Messaging), format!("{}{}", url, "/api/messaging"));
    let headers = build_headers(&config).unwrap();
    assert!(headers.iter().any(|(k, v)| k == "Content-Type" && v == "application/json"));

    let mut request = MessageRequest::new();
    request.add_message_bag(
        "254712345678".to_string(),
        "First test message".to_string(),
        "UjumbeSMS".to_string(),
    );
    request.add_message_bag(
        "254712345679,254712345679".to_string(),
        "Second test message".to_string(),
        "UjumbeSMS".to_string(),
    );
    let body = messaging_request_body(&request);
    assert!(body.contains("First test message"));
    assert!(body.contains("Second test message"));
    assert!(body.contains("254712345679,254712345679"));

    let response_body = r#"{
                    "status": {
                        "code": "1008",
                        "type": "success",
                        "description": "Your messages have been queued"
                    },
                    "meta": {
                        "recipients": 3,
                        "credits_deducted": 3,
                        "available_credits": "6605",
                        "user_email": "test@email.com",
                        "date_time": {
                            "date": "20150815 18:19:47",
                            "timezone_type": 3,
                            "timezone": "Africa/Nairobi"
                        }
                    }
                }"#;
    let result = handle_messaging_response(200, "200 OK".to_string(), response_body.to_string());

    assert!(result.is_ok());
    let response = result.unwrap();
    assert_eq!(response.status.code, "1008");
    assert_eq!(response.status.type_, "success");
    assert_eq!(response.meta.clone().unwrap().recipients, 3);
    assert_eq!(response.meta.clone().unwrap().credits_deducted, 3);
    assert_eq!(response.meta.clone().unwrap().available_credits, "6605");
    assert_eq!(response.meta.clone().unwrap().user_email, "test@email.com");
}

#[test]
fn test_error_handling() {
    let url = "http://127.0.0.1:1234".to_string();
    let config = UjumbeSmsConfig::new(
        "invalid_api_key".to_string(),
        "test@example.com".to_string(),
    )
    .with_base_url(url.clone());
    assert_eq!(build_url(&config, &ApiEndpoint::Messaging), format!("{}{}", url, "/api/messaging"));

    let mut request = MessageRequest::new();
    request.add_message_bag(
        "07123456789".to_string(),
        "Error test message".to_string(),
        "UjumbeSMS".to_string(),
    );
    let _body = messaging_request_body(&request);

    let response_body = r#"{
                    "status": {
                        "code": "1001",
                        "type": "error",
                        "description": "Invalid API credentials"
                    }
                }"#;
    let result =
        handle_messaging_response(400, "400 Bad Request".to_string(), response_body.to_string());

    assert!(result.is_err());
    if let Err(error) = result {
        match error {
            UjumbeSmsError::ApiError(code, desc) => {
                assert_eq!(code, "400 Bad Request");
                assert!(desc.contains("Invalid API credentials"));
            }
            _ => panic!("Expected ApiError variant"),
        }
    }
}

#[test]
fn test_request_validation() {
    let url = "http://127.0.0.1:1234".to_string();
    let config = UjumbeSmsConfig::new("test_api_key".to_string(), "test@email.com".to_string())
        .with_base_url(url.clone());
    assert_eq!(build_url(&config, &ApiEndpoint::Messaging), format!("{}{}", url, "/api/messaging"));

    // The four headers carry exactly the configured credentials.
    let headers = build_headers(&config).unwrap();
    assert!(headers.iter().any(|(k, v)| k == "X-Authorization" && v == "test_api_key"));
    assert!(headers.iter().any(|(k, v)| k == "Email" && v == "test@email.com"));
    assert!(headers.iter().any(|(k, v)| k == "Content-Type" && v == "application/json"));

    // The body is exactly the documented wire shape.
    let mut request = MessageRequest::new();
    request.add_message_bag(
        "254712345678".to_string(),
        "Request validation test message".to_string(),
        "UjumbeSMS".to_string(),
    );
    let body = messaging_request_body(&request);
    assert_eq!(
        body,
        "{\"data\":[{\"message_bag\":{\"numbers\":\"254712345678\",\
         \"message\":\"Request validation test message\",\"sender\":\"UjumbeSMS\"}}]}"
    );

    let response_body = r#"{
                    "status": {
                        "code": "1008",
                        "type": "success",
                        "description": "Your messages have been queued"
                    },
                    "meta": {
                        "recipients": 1,
                        "credits_deducted": 1,
                        "available_credits": "6608",
                        "user_email": "test@email.com",
                        "date_time": {
                            "date": "2025-05-03T12:34:56Z",
                            "timezone_type": 3,
                            "timezone": "UTC"
                        }
                    }
                }"#;
    let result = handle_messaging_response(200, "200 OK".to_string(), response_body.to_string());
    assert!(result.is_ok());
}

#[test]
fn test_balance_inquiry() {
    let url = "http://127.0.0.1:1234".to_string();
    let config = UjumbeSmsConfig::new("test_api_key".to_string(), "test@example.com".to_string())
        .with_base_url(url.clone());
    assert_eq!(build_url(&config, &ApiEndpoint::Balances), format!("{}{}", url, "/api/balance"));
    let headers = build_headers(&config).unwrap();
    assert!(headers.iter().any(|(k, v)| k == "Content-Type" && v == "application/json"));

    let response_body = r#"{
                    "status": {
                        "code": "1008",
                        "type": "success",
                        "description": "Balance inquiry"
                    },
                    "meta": {
                        "user": "test@email.com",
                        "credits": 10,
                        "rate": 1,
                        "user_email": "test@email.com",
                        "date_time": {
                            "date": "20150815 18:19:47",
                            "timezone_type": 3,
                            "timezone": "Africa/Nairobi"
                        }
                    }
                }"#;
    let result = handle_balance_response(200, "200 OK".to_string(), response_body.to_string());

    assert!(result.is_ok());
    let response = result.unwrap();
    assert_eq!(response.status.code, "1008");
    assert_eq!(response.status.type_, "success");
    assert_eq!(response.meta.clone().unwrap().rate, 1);
    assert_eq!(response.meta.clone().unwrap().user, "test@email.com");
}

#[test]
fn test_get_messages_history() {
    let url = "http://127.0.0.1:1234".to_string();
    let config = UjumbeSmsConfig::new("test_api_key".to_string(), "test@example.com".to_string())
        .with_base_url(url.clone());
    assert_eq!(build_url(&config, &ApiEndpoint::Messages), format!("{}{}", url, "/api/messages"));
    let headers = build_headers(&config).unwrap();
    assert!(headers.iter().any(|(k, v)| k == "Content-Type" && v == "application/json"));

    let mut request = MessageRequest::new();
    request.add_message_bag(
        "254712345678".to_string(),
        "Single test message".to_string(),
        "UjumbeSMS".to_string(),
    );
    let _body = messaging_request_body(&request);

    let response_body = r#"{
                    "status": {
                        "code": "1008",
                        "type": "success",
                        "description": "Your messages have been queued"
                    },
                    "meta": {
                        "recipients": 1,
                        "credits_deducted": 1,
                        "available_credits": "6608",
                        "user_email": "test@email.com",
                        "date_time": {
                            "date": "20150815 18:19:47",
                            "timezone_type": 3,
                            "timezone": "Africa/Nairobi"
                        }
                    }
                }"#;
    let result = handle_messaging_response(200, "200 OK".to_string(), response_body.to_string());

    assert!(result.is_ok());
    let response = result.unwrap();
    assert_eq!(response.status.code, "1008");
    assert_eq!(response.status.type_, "success");
    assert_eq!(response.meta.clone().unwrap().recipients, 1);
    assert_eq!(response.meta.clone().unwrap().credits_deducted, 1);
    assert_eq!(response.meta.clone().unwrap().user_email, "test@email.com");
    assert_eq!(response.meta.clone().unwrap().available_credits, "6608");
}
