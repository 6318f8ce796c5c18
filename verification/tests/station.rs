use sensor_station::pipeline::SensorError;
use sensor_station::reading::RawReading;
use sensor_station::request::TransportError;
use sensor_station::station::Action;
use sensor_station::station::Event;
use sensor_station::station::Phase;
use sensor_station::station::Station;
use sensor_station::station::StationError;
use sensor_station::station::POLL_INTERVAL_MS;
use sensor_station::station::WINDOW_SIZE;
use sensor_station::window::WindowError;

fn measured(temperature: i16, humidity: u16) -> Event {
    Event::Measured(RawReading { temperature, humidity })
}

fn connected_station(window_size: usize) -> Station {
    let mut station = Station::new(window_size, 2000).unwrap();
    assert!(matches!(station.step(Event::Connected), Ok(Action::Measure)));
    station
}

#[test]
fn standard_station_has_the_standard_settings() {
    assert_eq!(WINDOW_SIZE, 10);
    assert_eq!(POLL_INTERVAL_MS, 2000);
    let station = Station::standard();
    assert_eq!(station.window_size(), 10);
    assert_eq!(station.interval_ms(), 2000);
    assert_eq!(station.collected(), 0);
    assert_eq!(station.phase(), Phase::Connecting);
}

#[test]
fn station_of_no_window_is_refused() {
    assert_eq!(Station::new(0, 2000).err(), Some(WindowError::ZeroCapacity));
    assert!(Station::new(1, 0).is_ok());
}

#[test]
fn bring_up_leads_to_the_first_attempt() {
    let mut station = Station::standard();
    assert!(matches!(station.step(Event::Connected), Ok(Action::Measure)));
    assert_eq!(station.phase(), Phase::Measuring);
}

#[test]
fn failed_bring_up_halts_before_any_sensor_or_network_call() {
    let mut station = Station::standard();
    let mut actions = Vec::new();
    actions.push(station.step(Event::ConnectFailed).unwrap());
    assert_eq!(station.phase(), Phase::Halted);
    let later = [
        Event::Connected,
        Event::ConnectFailed,
        measured(40, 500),
        Event::SensorFailed(SensorError::Timeout),
        Event::Posted,
        Event::PostFailed(TransportError::ConnectFailed),
        Event::Slept,
    ];
    for event in later {
        match station.step(event) {
            Ok(action) => actions.push(action),
            Err(error) => assert_eq!(error, StationError::UnexpectedEvent),
        }
        assert_eq!(station.phase(), Phase::Halted);
        assert_eq!(station.collected(), 0);
    }
    assert_eq!(actions.len(), 1);
    assert!(matches!(actions[0], Action::Halt));
    let measures = actions.iter().filter(|a| matches!(a, Action::Measure)).count();
    let posts = actions.iter().filter(|a| matches!(a, Action::Post(_))).count();
    assert_eq!(measures, 0);
    assert_eq!(posts, 0);
}

#[test]
fn failed_read_leads_to_the_pause_without_a_post() {
    let mut station = connected_station(10);
    let action = station.step(Event::SensorFailed(SensorError::CrcMismatch));
    assert!(matches!(action, Ok(Action::Sleep(2000))));
    assert_eq!(station.collected(), 0);
    assert_eq!(station.phase(), Phase::Sleeping);
    assert!(matches!(station.step(Event::Slept), Ok(Action::Measure)));
    assert_eq!(station.phase(), Phase::Measuring);
}

#[test]
fn reading_that_does_not_fill_the_window_leads_to_the_pause() {
    let mut station = Station::new(3, 750).unwrap();
    assert!(matches!(station.step(Event::Connected), Ok(Action::Measure)));
    assert!(matches!(station.step(measured(40, 500)), Ok(Action::Sleep(750))));
    assert_eq!(station.collected(), 1);
    assert_eq!(station.phase(), Phase::Sleeping);
}

#[test]
fn ten_readings_lead_to_one_post() {
    let mut station = connected_station(10);
    let mut posted = Vec::new();
    for i in 0..10 {
        let degrees: i16 = 20 + i;
        match station.step(measured(2 * degrees, 500)).unwrap() {
            Action::Sleep(ms) => {
                assert_eq!(ms, 2000);
                assert!(i < 9);
                assert_eq!(station.collected(), i as usize + 1);
            }
            Action::Post(payload) => {
                assert_eq!(i, 9);
                assert_eq!(station.collected(), 0);
                assert_eq!(station.phase(), Phase::Posting);
                posted.push(payload);
                assert!(matches!(station.step(Event::Posted), Ok(Action::Sleep(2000))));
            }
            other => panic!("unexpected action {:?}", other),
        }
        assert!(matches!(station.step(Event::Slept), Ok(Action::Measure)));
    }
    assert_eq!(posted.len(), 1);
    let decoded: serde_json::Value = serde_json::from_slice(posted[0].as_bytes()).unwrap();
    assert_eq!(decoded["temperature"].as_f64(), Some(24.5));
    assert_eq!(decoded["humidity"].as_f64(), Some(50.0));
    assert_eq!(station.collected(), 0);
}

#[test]
fn failures_in_between_delay_the_post() {
    let mut station = connected_station(10);
    let mut posts = 0;
    for attempt in 1..=12 {
        let event = if attempt == 3 || attempt == 7 {
            Event::SensorFailed(SensorError::Timeout)
        } else {
            measured(40, 500)
        };
        match station.step(event).unwrap() {
            Action::Sleep(_) => assert!(attempt < 12),
            Action::Post(payload) => {
                assert_eq!(attempt, 12);
                posts += 1;
                assert_eq!(payload.as_bytes(), b"{\"humidity\":50.0,\"temperature\":20.0}");
                assert!(matches!(station.step(Event::Posted), Ok(Action::Sleep(2000))));
            }
            other => panic!("unexpected action {:?}", other),
        }
        assert!(matches!(station.step(Event::Slept), Ok(Action::Measure)));
    }
    assert_eq!(posts, 1);
    assert_eq!(station.collected(), 0);
}

#[test]
fn failed_post_is_skipped() {
    let mut station = connected_station(1);
    assert!(matches!(station.step(measured(40, 500)), Ok(Action::Post(_))));
    let failures = TransportError::NonSuccessStatus(503);
    assert!(matches!(station.step(Event::PostFailed(failures)), Ok(Action::Sleep(2000))));
    assert_eq!(station.phase(), Phase::Sleeping);
    assert_eq!(station.collected(), 0);
    assert!(matches!(station.step(Event::Slept), Ok(Action::Measure)));
    assert!(matches!(station.step(measured(42, 500)), Ok(Action::Post(_))));
    assert!(matches!(
        station.step(Event::PostFailed(TransportError::WriteFailed)),
        Ok(Action::Sleep(2000))
    ));
}

#[test]
fn event_that_is_not_awaited_is_refused() {
    let mut station = Station::new(2, 2000).unwrap();
    for event in [measured(1, 1), Event::Slept, Event::Posted] {
        assert_eq!(station.step(event).err(), Some(StationError::UnexpectedEvent));
        assert_eq!(station.phase(), Phase::Connecting);
    }
    station.step(Event::Connected).unwrap();
    for event in [Event::Connected, Event::ConnectFailed, Event::Slept, Event::Posted] {
        assert_eq!(station.step(event).err(), Some(StationError::UnexpectedEvent));
        assert_eq!(station.phase(), Phase::Measuring);
        assert_eq!(station.collected(), 0);
    }
    station.step(measured(40, 500)).unwrap();
    for event in [measured(1, 1), Event::SensorFailed(SensorError::Gpio), Event::Posted] {
        assert_eq!(station.step(event).err(), Some(StationError::UnexpectedEvent));
        assert_eq!(station.phase(), Phase::Sleeping);
        assert_eq!(station.collected(), 1);
    }
    station.step(Event::Slept).unwrap();
    assert!(matches!(station.step(measured(40, 500)), Ok(Action::Post(_))));
    for event in [measured(1, 1), Event::Slept, Event::Connected] {
        assert_eq!(station.step(event).err(), Some(StationError::UnexpectedEvent));
        assert_eq!(station.phase(), Phase::Posting);
    }
}
