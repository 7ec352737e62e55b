use rustine::clock::Timestamp;
use rustine::config::{load_configuration, AlarmConfig, Time};
use rustine::input::Message;
use rustine::sched::{SchedState, Scheduler};

// 2024-05-15 was a Wednesday, so its Monday-based weekday index is 2.
fn wednesday(hours: u32, minutes: u32, seconds: u32) -> Timestamp {
    Timestamp {
        year: 2024,
        month: 5,
        day: 15,
        weekday: 2,
        hours,
        minutes,
        seconds,
    }
}

fn alarm(time: Time, audio: &str, volume: u32) -> AlarmConfig {
    AlarmConfig {
        days: vec![true; 7],
        time,
        audio_file: audio.to_string(),
        volume,
        last_run: None,
    }
}

#[test]
fn end_to_end_single_firing() {
    // configuration loaded, then a simulated clock reaching the trigger
    // second on a Wednesday fires exactly once
    let alarms = load_configuration("MTWTF__;06:30:15;/audio.ogg;75");
    let mut sched = Scheduler::new();

    let out = sched.tick(Some(Message::Reconfigure(alarms)), &wednesday(6, 30, 15));
    assert!(out.reconfigured);
    assert_eq!(
        out.runner_messages,
        vec![Message::AudioAndVolume("/audio.ogg".to_string(), 75)]
    );
    assert_eq!(sched.alarms[0].last_run, Some(wednesday(6, 30, 15)));
    assert!(!out.terminate);
    assert!(!out.unwatch);

    // one second later the same day, nothing further fires
    let out2 = sched.tick(None, &wednesday(6, 30, 16));
    assert_eq!(out2.runner_messages, vec![]);
    assert_eq!(sched.alarms[0].last_run, Some(wednesday(6, 30, 15)));
}

#[test]
fn at_most_one_alarm_fires_per_tick() {
    // two records due at once: only the earliest in list order fires
    let first = alarm(Time { hours: 6, minutes: 0, seconds: 0 }, "/first.ogg", 10);
    let second = alarm(Time { hours: 6, minutes: 0, seconds: 0 }, "/second.ogg", 20);
    let mut sched = Scheduler::new();
    let now = wednesday(6, 0, 0);

    let out = sched.tick(Some(Message::Reconfigure(vec![first, second])), &now);
    assert_eq!(
        out.runner_messages,
        vec![Message::AudioAndVolume("/first.ogg".to_string(), 10)]
    );
    assert_eq!(sched.alarms[0].last_run, Some(now));
    assert_eq!(sched.alarms[1].last_run, None);

    // the remaining due record fires on the next tick
    let later = wednesday(6, 0, 1);
    let out2 = sched.tick(None, &later);
    assert_eq!(
        out2.runner_messages,
        vec![Message::AudioAndVolume("/second.ogg".to_string(), 20)]
    );
    assert_eq!(sched.alarms[0].last_run, Some(now));
    assert_eq!(sched.alarms[1].last_run, Some(later));

    // and after that, a tick fires nothing
    let out3 = sched.tick(None, &wednesday(6, 0, 2));
    assert_eq!(out3.runner_messages, vec![]);
}

#[test]
fn reconfigure_fully_replaces_the_list() {
    // a record about to fire disappears with the list that held it
    let due = alarm(Time { hours: 6, minutes: 0, seconds: 0 }, "/old.ogg", 10);
    let mut sched = Scheduler::new();
    let out = sched.tick(
        Some(Message::Reconfigure(vec![due])),
        &wednesday(5, 0, 0),
    );
    assert_eq!(out.runner_messages, vec![]);

    // the old record would fire at 06:00:00, but the new list replaces it
    let replacement = alarm(Time { hours: 23, minutes: 0, seconds: 0 }, "/new.ogg", 20);
    let out2 = sched.tick(
        Some(Message::Reconfigure(vec![replacement])),
        &wednesday(6, 0, 0),
    );
    assert_eq!(out2.runner_messages, vec![]);
    assert_eq!(sched.alarms.len(), 1);
    assert_eq!(sched.alarms[0].audio_file, "/new.ogg");

    // an empty reconfiguration leaves nothing to fire at all
    let out3 = sched.tick(Some(Message::Reconfigure(vec![])), &wednesday(23, 30, 0));
    assert_eq!(out3.runner_messages, vec![]);
    assert_eq!(sched.alarms.len(), 0);
}

#[test]
fn quit_stops_the_loop_and_reaches_the_runner() {
    // a Quit forwards a Quit to the audio runner, asks for the watcher to be
    // unregistered, and stops the loop without scanning
    let due = alarm(Time { hours: 6, minutes: 0, seconds: 0 }, "/due.ogg", 10);
    let mut sched = Scheduler::new();
    sched.tick(Some(Message::Reconfigure(vec![due])), &wednesday(5, 0, 0));

    let out = sched.tick(Some(Message::Quit), &wednesday(6, 0, 0));
    assert_eq!(out.runner_messages, vec![Message::Quit]);
    assert!(out.terminate);
    assert!(out.unwatch);
    assert!(!out.heartbeat);
    assert_eq!(sched.state, SchedState::Stopped);
    // the due record did not fire on the quitting tick
    assert_eq!(sched.alarms[0].last_run, None);
}

#[test]
fn stop_alarm_is_forwarded_to_the_runner() {
    let mut sched = Scheduler::new();
    let out = sched.tick(Some(Message::StopAlarm), &wednesday(12, 0, 1));
    assert_eq!(out.runner_messages, vec![Message::StopAlarm]);
    assert!(!out.terminate);
    assert!(!out.unwatch);
    assert_eq!(sched.state, SchedState::Running);
}

#[test]
fn show_and_help_do_not_move_the_scheduler() {
    let mut sched = Scheduler::new();
    let out = sched.tick(Some(Message::Show), &wednesday(12, 0, 1));
    assert_eq!(out.runner_messages, vec![]);
    assert!(!out.terminate);
    let out2 = sched.tick(Some(Message::Help), &wednesday(12, 0, 2));
    assert_eq!(out2.runner_messages, vec![]);
    assert!(!out2.terminate);
}

#[test]
fn heartbeat_reports_on_the_minute_when_nothing_fires() {
    let mut sched = Scheduler::new();
    let out = sched.tick(None, &wednesday(12, 0, 0));
    assert!(out.heartbeat);
    let out2 = sched.tick(None, &wednesday(12, 0, 1));
    assert!(!out2.heartbeat);

    // a tick that fires suppresses the heartbeat
    let due = alarm(Time { hours: 12, minutes: 0, seconds: 0 }, "/due.ogg", 10);
    sched.tick(Some(Message::Reconfigure(vec![due])), &wednesday(11, 59, 59));
    let out3 = sched.tick(None, &wednesday(12, 0, 0));
    assert!(!out3.heartbeat);
    assert_eq!(out3.runner_messages.len(), 1);
}
