use axplat_riscv64_common::controller::{Command, Controller, LocalSource, Mode};

#[test]
fn new_controller_has_nothing_pending() {
    let mut ctl = Controller::new(4);
    assert_eq!(ctl.harts(), 4);
    assert_eq!(ctl.take_pending(), Vec::<Command>::new());
}

#[test]
fn operations_are_recorded_in_order() {
    let mut ctl = Controller::new(2);
    ctl.set_threshold(1, Mode::Supervisor, 0);
    ctl.set_priority(10, 6);
    ctl.enable(0, Mode::Supervisor, 10);
    ctl.disable(1, Mode::Machine, 10);
    ctl.complete(0, Mode::Supervisor, 10);
    ctl.set_local(LocalSource::Timer, true);
    ctl.set_local(LocalSource::External, false);
    ctl.issue(Command::EnableLocal(LocalSource::Software));
    assert_eq!(
        ctl.take_pending(),
        vec![
            Command::SetThreshold { hart: 1, mode: Mode::Supervisor, level: 0 },
            Command::SetPriority { channel: 10, level: 6 },
            Command::Enable { hart: 0, mode: Mode::Supervisor, channel: 10 },
            Command::Disable { hart: 1, mode: Mode::Machine, channel: 10 },
            Command::Complete { hart: 0, mode: Mode::Supervisor, channel: 10 },
            Command::EnableLocal(LocalSource::Timer),
            Command::DisableLocal(LocalSource::External),
            Command::EnableLocal(LocalSource::Software),
        ]
    );
    assert_eq!(ctl.harts(), 2);
}

#[test]
fn taking_forgets_what_was_recorded() {
    let mut ctl = Controller::new(1);
    ctl.set_priority(3, 6);
    assert_eq!(ctl.take_pending().len(), 1);
    assert_eq!(ctl.take_pending(), Vec::<Command>::new());
    ctl.enable(0, Mode::Supervisor, 3);
    assert_eq!(
        ctl.take_pending(),
        vec![Command::Enable { hart: 0, mode: Mode::Supervisor, channel: 3 }]
    );
}
