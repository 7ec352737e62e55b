use rustine::clock::{now_timestamp, Timestamp};
use rustine::config::{AlarmConfig, Time};
use rustine::input::{interpret_command, route_keyboard, KeyboardRoute, Message};
use rustine::runner::{clamp_volume, runner_step, RunnerAction};

#[test]
fn as_str_names_the_keyboard_tokens() {
    assert_eq!(Message::StopAlarm.as_str(), "stop");
    assert_eq!(Message::Quit.as_str(), "quit");
    assert_eq!(Message::Show.as_str(), "show");
    assert_eq!(Message::Help.as_str(), "help");
    assert_eq!(Message::Reconfigure(vec![]).as_str(), "other_message");
}

#[test]
fn interpret_command_recognizes_trimmed_case_insensitive_tokens() {
    assert_eq!(interpret_command("quit\n"), Some(Message::Quit));
    assert_eq!(interpret_command("  STOP  "), Some(Message::StopAlarm));
    assert_eq!(interpret_command("Show\r\n"), Some(Message::Show));
    assert_eq!(interpret_command("\thelp\t"), Some(Message::Help));
    assert_eq!(interpret_command(""), None);
    assert_eq!(interpret_command("   \n"), None);
    assert_eq!(interpret_command("bogus"), None);
    assert_eq!(interpret_command("quit now"), None);
}

#[test]
fn route_keyboard_follows_the_protocol() {
    assert_eq!(route_keyboard(&Message::StopAlarm), KeyboardRoute::Forward);
    assert_eq!(route_keyboard(&Message::Quit), KeyboardRoute::ForwardAndQuit);
    assert_eq!(route_keyboard(&Message::Show), KeyboardRoute::ShowConfig);
    assert_eq!(route_keyboard(&Message::Help), KeyboardRoute::PrintHelp);
    assert_eq!(
        route_keyboard(&Message::AudioAndVolume("/a.ogg".to_string(), 10)),
        KeyboardRoute::Ignore
    );
    assert_eq!(route_keyboard(&Message::Reconfigure(vec![])), KeyboardRoute::Ignore);
}

#[test]
fn runner_step_follows_the_protocol() {
    assert_eq!(
        runner_step(Message::AudioAndVolume("/a.ogg".to_string(), 40)),
        RunnerAction::Play("/a.ogg".to_string(), 40)
    );
    assert_eq!(runner_step(Message::StopAlarm), RunnerAction::Silence);
    // only a Quit ends the runner; unrecognized messages are ignored
    assert_eq!(runner_step(Message::Quit), RunnerAction::Terminate);
    assert_eq!(runner_step(Message::Show), RunnerAction::Ignore);
    assert_eq!(runner_step(Message::Help), RunnerAction::Ignore);
    assert_eq!(runner_step(Message::Reconfigure(vec![])), RunnerAction::Ignore);
}

#[test]
fn volume_gain_mapping_is_clamped_and_monotone() {
    // the output gain is the clamped volume over 100
    assert_eq!(clamp_volume(0) as f32 / 100.0, 0.0);
    assert_eq!(clamp_volume(50) as f32 / 100.0, 0.5);
    assert_eq!(clamp_volume(100) as f32 / 100.0, 1.0);
    assert_eq!(clamp_volume(150) as f32 / 100.0, 1.0);
    let mut previous = 0.0;
    for v in 0..300 {
        let gain = clamp_volume(v) as f32 / 100.0;
        assert!(gain >= previous);
        previous = gain;
    }
}

#[test]
fn status_line_prints_the_documented_form() {
    let alarm = AlarmConfig {
        days: vec![true, true, true, true, true, false, false],
        time: Time { hours: 6, minutes: 30, seconds: 15 },
        audio_file: "/audio.ogg".to_string(),
        volume: 75,
        last_run: None,
    };
    let now = Timestamp {
        year: 2024,
        month: 5,
        day: 15,
        weekday: 2,
        hours: 5,
        minutes: 0,
        seconds: 0,
    };
    assert_eq!(
        alarm.status_line(&now),
        "Days: MTWTF__, Time: 06:30:15, File: /audio.ogg, Volume: 75%, \
         Last run: never, Run today: true"
    );

    let fired = AlarmConfig {
        last_run: Some(Timestamp {
            year: 2024,
            month: 5,
            day: 15,
            weekday: 2,
            hours: 6,
            minutes: 30,
            seconds: 15,
        }),
        ..alarm
    };
    let later = Timestamp { hours: 7, ..now };
    assert_eq!(
        fired.status_line(&later),
        "Days: MTWTF__, Time: 06:30:15, File: /audio.ogg, Volume: 75%, \
         Last run: 2024-05-15T06:30:15, Run today: false"
    );
}

#[test]
fn now_timestamp_is_well_formed() {
    let t = now_timestamp();
    assert!((1..=12).contains(&t.month));
    assert!((1..=31).contains(&t.day));
    assert!(t.weekday < 7);
    assert!(t.hours < 24);
    assert!(t.minutes < 60);
    assert!(t.seconds < 60);
}
