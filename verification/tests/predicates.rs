use rustine::clock::Timestamp;
use rustine::config::{AlarmConfig, Time};

// 2024-05-15 was a Wednesday, so its Monday-based weekday index is 2.
fn wednesday(hours: u32, minutes: u32, seconds: u32) -> Timestamp {
    Timestamp {
        year: 2024,
        month: 5,
        day: 15,
        weekday: 2,
        hours,
        minutes,
        seconds,
    }
}

#[test]
fn already_run_today_check_true() {
    let now = wednesday(10, 30, 0);
    let before = wednesday(10, 29, 59);

    let time_for_alarm = Time {
        hours: before.hours,
        minutes: before.minutes,
        seconds: before.seconds,
    };

    let alarm_config = AlarmConfig {
        days: vec![],
        time: time_for_alarm,
        audio_file: "/fake/path".to_string(),
        volume: 100,
        last_run: Some(before),
    };

    assert_eq!(alarm_config.already_run_today(&now), true);
}

#[test]
fn already_run_today_check_false() {
    let now = wednesday(10, 30, 0);
    let after = wednesday(10, 30, 1);

    let time_for_alarm = Time {
        hours: after.hours,
        minutes: after.minutes,
        seconds: after.seconds,
    };

    let alarm_config = AlarmConfig {
        days: vec![],
        time: time_for_alarm,
        audio_file: "/fake/path".to_string(),
        volume: 100,
        last_run: Some(now),
    };

    assert_eq!(alarm_config.already_run_today(&now), false);
}

#[test]
fn is_expired_check_true() {
    // should the alarm be launched
    let now = wednesday(10, 30, 0);
    let before = wednesday(10, 29, 59);

    // time_for_alarm <= now
    let time_for_alarm = Time {
        hours: now.hours,
        minutes: now.minutes,
        seconds: now.seconds,
    };

    let alarm_config = AlarmConfig {
        days: vec![],
        time: time_for_alarm,
        audio_file: "/fake/path".to_string(),
        volume: 100,
        last_run: Some(before),
    };

    assert_eq!(alarm_config.is_expired(&now), true);
}

#[test]
fn is_expired_check_false() {
    // should the alarm be launched
    let now = wednesday(10, 30, 0);
    let after = wednesday(10, 30, 1);

    // time_for_alarm >= now
    let time_for_alarm = Time {
        hours: after.hours,
        minutes: after.minutes,
        seconds: after.seconds,
    };

    let alarm_config = AlarmConfig {
        days: vec![],
        time: time_for_alarm,
        audio_file: "/fake/path".to_string(),
        volume: 100,
        last_run: Some(after),
    };

    assert_eq!(alarm_config.is_expired(&now), false);
}

#[test]
fn already_run_today_boundary_and_other_day() {
    let alarm_time = Time { hours: 6, minutes: 30, seconds: 15 };
    let base = AlarmConfig {
        days: vec![true; 7],
        time: alarm_time,
        audio_file: "/a.ogg".to_string(),
        volume: 50,
        last_run: None,
    };
    let now = wednesday(7, 0, 0);

    // never fired: false
    assert!(!base.already_run_today(&now));

    // fired today exactly at its trigger second (boundary): true
    let fired_on_time = AlarmConfig { last_run: Some(wednesday(6, 30, 15)), ..base.clone() };
    assert!(fired_on_time.already_run_today(&now));

    // fired today but before its trigger second: false
    let fired_early = AlarmConfig { last_run: Some(wednesday(6, 30, 14)), ..base.clone() };
    assert!(!fired_early.already_run_today(&now));

    // fired on another calendar day, later in the day: false
    let tuesday = Timestamp { day: 14, weekday: 1, ..wednesday(8, 0, 0) };
    let fired_yesterday = AlarmConfig { last_run: Some(tuesday), ..base.clone() };
    assert!(!fired_yesterday.already_run_today(&now));
}

#[test]
fn is_expired_is_monotone_within_a_day() {
    let alarm = AlarmConfig {
        days: vec![true; 7],
        time: Time { hours: 6, minutes: 30, seconds: 15 },
        audio_file: "/a.ogg".to_string(),
        volume: 50,
        last_run: None,
    };
    let t1 = wednesday(6, 30, 15);
    assert!(alarm.is_expired(&t1));
    // every later instant of the same day stays expired
    for (h, m, s) in [(6, 30, 16), (6, 31, 0), (7, 0, 0), (23, 59, 59)] {
        assert!(alarm.is_expired(&wednesday(h, m, s)));
    }
    assert!(!alarm.is_expired(&wednesday(6, 30, 14)));
}

#[test]
fn is_active_day_follows_the_mask() {
    let alarm = AlarmConfig {
        days: vec![true, false, true, false, false, false, false],
        time: Time { hours: 6, minutes: 30, seconds: 15 },
        audio_file: "/a.ogg".to_string(),
        volume: 50,
        last_run: None,
    };
    let monday = Timestamp { day: 13, weekday: 0, ..wednesday(6, 31, 0) };
    let tuesday = Timestamp { day: 14, weekday: 1, ..wednesday(6, 31, 0) };
    assert!(alarm.is_active_day(&monday));
    assert!(!alarm.is_active_day(&tuesday));
    assert!(alarm.is_active_day(&wednesday(6, 31, 0)));

    // an out-of-range weekday index counts as inactive
    let odd = Timestamp { weekday: 9, ..wednesday(6, 31, 0) };
    assert!(!alarm.is_active_day(&odd));
    let empty_days = AlarmConfig { days: vec![], ..alarm };
    assert!(!empty_days.is_active_day(&monday));
}

#[test]
fn should_fire_combines_the_three_predicates() {
    let alarm = AlarmConfig {
        days: vec![true, true, true, true, true, false, false],
        time: Time { hours: 6, minutes: 30, seconds: 15 },
        audio_file: "/a.ogg".to_string(),
        volume: 75,
        last_run: None,
    };
    assert!(alarm.should_fire(&wednesday(6, 30, 15)));
    assert!(!alarm.should_fire(&wednesday(6, 30, 14)));
    let saturday = Timestamp { day: 18, weekday: 5, ..wednesday(6, 30, 15) };
    assert!(!alarm.should_fire(&saturday));
    let fired = AlarmConfig { last_run: Some(wednesday(6, 30, 15)), ..alarm };
    assert!(!fired.should_fire(&wednesday(6, 30, 16)));
}
