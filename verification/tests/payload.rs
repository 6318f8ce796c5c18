use sensor_station::aggregate::AggregateReading;
use sensor_station::aggregate::Mean;
use sensor_station::payload::encode;

fn text_of(reading: &AggregateReading) -> String {
    String::from_utf8(encode(reading).into_bytes()).unwrap()
}

#[test]
fn payload_round_trip_keeps_both_fields() {
    let reading = AggregateReading {
        temperature: Mean::of_sample(215),
        humidity: Mean::of_sample(553),
    };
    let payload = encode(&reading);
    let decoded: serde_json::Value = serde_json::from_slice(payload.as_bytes()).unwrap();
    assert_eq!(decoded["temperature"].as_f64(), Some(21.5));
    assert_eq!(decoded["humidity"].as_f64(), Some(55.3));
    assert_eq!(decoded["temperature"].as_f64().unwrap() as f32, 21.5f32);
    assert_eq!(decoded["humidity"].as_f64().unwrap() as f32, 55.3f32);
    let members = decoded.as_object().unwrap();
    assert_eq!(members.len(), 2);
}

#[test]
fn payload_names_humidity_first_then_temperature() {
    let reading = AggregateReading {
        temperature: Mean::of_sample(215),
        humidity: Mean::of_sample(553),
    };
    assert_eq!(text_of(&reading), "{\"humidity\":55.3,\"temperature\":21.5}");
    let payload = encode(&reading);
    assert_eq!(payload.len(), 36);
    assert_eq!(payload.as_bytes().len(), 36);
}

#[test]
fn payload_of_whole_numbers_keeps_a_fractional_digit() {
    let reading = AggregateReading {
        temperature: Mean::new(2450, 10).unwrap(),
        humidity: Mean::new(5000, 10).unwrap(),
    };
    assert_eq!(text_of(&reading), "{\"humidity\":50.0,\"temperature\":24.5}");
}

#[test]
fn payload_of_a_negative_temperature() {
    let reading = AggregateReading {
        temperature: Mean::new(-65, 2).unwrap(),
        humidity: Mean::of_sample(0),
    };
    assert_eq!(text_of(&reading), "{\"humidity\":0.0,\"temperature\":-3.25}");
    let decoded: serde_json::Value = serde_json::from_str(&text_of(&reading)).unwrap();
    assert_eq!(decoded["temperature"].as_f64(), Some(-3.25));
    assert_eq!(decoded["humidity"].as_f64(), Some(0.0));
}

#[test]
fn payload_rounds_means_to_thousandths() {
    let reading = AggregateReading {
        temperature: Mean::new(730, 3).unwrap(),
        humidity: Mean::new(2000, 3).unwrap(),
    };
    assert_eq!(text_of(&reading), "{\"humidity\":66.667,\"temperature\":24.333}");
}

#[test]
fn payload_is_what_a_json_encoder_writes_for_these_numbers() {
    let reading = AggregateReading {
        temperature: Mean::new(2450, 10).unwrap(),
        humidity: Mean::new(5530, 10).unwrap(),
    };
    let mut members = serde_json::Map::new();
    members.insert("humidity".to_string(), serde_json::Value::from(55.3f64));
    members.insert("temperature".to_string(), serde_json::Value::from(24.5f64));
    let expected = serde_json::to_string(&serde_json::Value::Object(members)).unwrap();
    assert_eq!(text_of(&reading), expected);
}

#[test]
fn payload_of_the_extremes_is_valid_json() {
    let reading = AggregateReading {
        temperature: Mean::of_sample(i32::MIN),
        humidity: Mean::of_sample(i32::MAX),
    };
    let text = text_of(&reading);
    assert_eq!(text, "{\"humidity\":214748364.7,\"temperature\":-214748364.8}");
    let decoded: serde_json::Value = serde_json::from_str(&text).unwrap();
    assert_eq!(decoded["humidity"].as_f64(), Some(214748364.7));
    assert_eq!(decoded["temperature"].as_f64(), Some(-214748364.8));
}
