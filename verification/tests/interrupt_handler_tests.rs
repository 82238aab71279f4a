use gbemu::gameboy::{GameInterruptConfig, InterruptHandler, InterruptType};

#[test]
fn handler_starts_with_defaults_and_presets() {
    let h = InterruptHandler::new();
    assert_eq!(h.get_interrupt_priorities(), [0, 1, 2, 3, 4]);
    assert!(h.is_masking_prevention_enabled());
    assert!(h.get_current_game_config().is_none());
    let ids: Vec<String> = h.get_game_configs().iter().map(|c| c.game_id.clone()).collect();
    assert_eq!(ids, vec!["tetris".to_string(), "drmario".to_string(), "hyperlode".to_string()]);
    assert!(!h.has_pending_interrupts());
    assert!(!h.is_joypad_interrupt_delayed());
}

#[test]
fn handler_tetris_puts_joypad_first() {
    let mut h = InterruptHandler::new();
    h.set_game_config("tetris");
    assert_eq!(h.get_interrupt_priorities(), [1, 2, 3, 4, 0]);
    assert_eq!(h.get_current_game_config().unwrap().game_id, "tetris");
    h.ie_register = 0x1F;
    h.if_register = 0x11;
    assert_eq!(h.get_highest_priority_interrupt(), Some((InterruptType::Joypad, 0x60)));
    h.set_game_config("unknown");
    assert_eq!(h.get_interrupt_priorities(), [0, 1, 2, 3, 4]);
    assert!(h.get_current_game_config().is_none());
    assert_eq!(h.get_highest_priority_interrupt(), Some((InterruptType::VBlank, 0x40)));
}

#[test]
fn handler_auto_configures_from_file_name() {
    let mut h = InterruptHandler::new();
    h.auto_configure_for_game("Tetris (World).gb");
    assert_eq!(h.get_current_game_config().unwrap().game_id, "tetris");
    h.auto_configure_for_game("roms/DR.MARIO.GB");
    assert_eq!(h.get_current_game_config().unwrap().game_id, "drmario");
    assert_eq!(h.get_interrupt_priorities(), [0, 2, 3, 4, 1]);
    h.auto_configure_for_game("Hyper Lode Runner.gb");
    assert_eq!(h.get_current_game_config().unwrap().joypad_delay_cycles, 3);
    h.auto_configure_for_game("zelda.gb");
    assert!(h.get_current_game_config().is_none());
    assert_eq!(h.get_interrupt_priorities(), [0, 1, 2, 3, 4]);
}

#[test]
fn handler_add_game_config_replaces_same_id() {
    let mut h = InterruptHandler::new();
    let mut cfg = GameInterruptConfig::default();
    assert_eq!(cfg.game_id, "default");
    assert_eq!(cfg.joypad_delay_cycles, 4);
    cfg.game_id = "tetris".to_string();
    cfg.prevent_masking = false;
    cfg.custom_priorities[2] = Some(0);
    h.add_game_config(cfg.clone());
    assert_eq!(h.get_game_configs().len(), 3);
    h.set_game_config("tetris");
    assert!(!h.is_masking_prevention_enabled());
    assert_eq!(h.get_interrupt_priorities(), [0, 1, 0, 3, 4]);
    cfg.game_id = "mygame".to_string();
    h.add_game_config(cfg);
    assert_eq!(h.get_game_configs().len(), 4);
}

#[test]
fn handler_trigger_and_joypad_delay() {
    let mut h = InterruptHandler::new();
    h.trigger_interrupt(InterruptType::Timer);
    assert_eq!(h.if_register, 0x04);
    assert_eq!(h.stats.total_interrupts, 1);
    assert_eq!(h.get_statistics().interrupts_by_type, [0, 0, 1, 0, 0]);
    h.trigger_interrupt(InterruptType::Joypad);
    assert_eq!(h.if_register, 0x04);
    assert_eq!(h.get_joypad_interrupt_delay_cycles(), Some(4));
    assert!(!h.process_joypad_interrupt_delay());
    assert!(!h.process_joypad_interrupt_delay());
    assert!(!h.process_joypad_interrupt_delay());
    assert!(h.process_joypad_interrupt_delay());
    assert_eq!(h.if_register, 0x14);
    assert!(!h.is_joypad_interrupt_delayed());
    assert!(!h.process_joypad_interrupt_delay());
    h.set_game_config("tetris");
    h.trigger_interrupt(InterruptType::Joypad);
    assert_eq!(h.get_joypad_interrupt_delay_cycles(), Some(3));
    h.reset_statistics();
    assert_eq!(h.stats.total_interrupts, 0);
}

#[test]
fn handler_masking_prevention_prefers_others() {
    let mut h = InterruptHandler::new();
    h.set_interrupt_priority(InterruptType::Serial, 2);
    h.ie_register = 0x1F;
    h.if_register = 0x0C;
    assert_eq!(h.get_highest_priority_interrupt(), Some((InterruptType::Timer, 0x50)));
    h.acknowledge_interrupt(InterruptType::Timer);
    assert_eq!(h.if_register, 0x08);
    h.if_register = 0x0C;
    assert_eq!(h.get_highest_priority_interrupt(), Some((InterruptType::Serial, 0x58)));
    h.clear_interrupt_flag(InterruptType::Serial);
    assert_eq!(h.if_register, 0x04);
    let d = InterruptHandler::default();
    assert!(d.is_masking_prevention_enabled());
}

#[test]
fn handler_begin_cpu_step_serves_highest_and_clears_it() {
    let mut h = InterruptHandler::new();
    let r = h.begin_cpu_step(0x05, 0x05, true);
    assert_eq!(r, Some((InterruptType::VBlank, 0x40)));
    assert_eq!(h.ie_register, 0x05);
    assert_eq!(h.if_register, 0x04);
    // With masking prevention the same source is now one step worse, but still ahead of
    // Timer (priority 2).
    let r = h.begin_cpu_step(0x05, 0x05, true);
    assert_eq!(r, Some((InterruptType::VBlank, 0x40)));
}

#[test]
fn handler_begin_cpu_step_waits_for_master_enable() {
    let mut h = InterruptHandler::new();
    assert_eq!(h.begin_cpu_step(0x01, 0x01, false), None);
    assert_eq!(h.if_register, 0x01);
    assert_eq!(h.begin_cpu_step(0x00, 0x01, true), None);
}

#[test]
fn handler_begin_cpu_step_runs_joypad_delay_through_entry() {
    let mut h = InterruptHandler::new();
    h.trigger_interrupt(InterruptType::Joypad);
    assert_eq!(h.get_joypad_interrupt_delay_cycles(), Some(4));
    // One cycle at the step start, then the rest during the 20-cycle entry to Timer.
    let r = h.begin_cpu_step(0x04, 0x04, true);
    assert_eq!(r, Some((InterruptType::Timer, 0x50)));
    assert_eq!(h.if_register, 0x10);
    assert!(!h.is_joypad_interrupt_delayed());
}

#[test]
fn handler_begin_cpu_step_without_service_counts_one_cycle() {
    let mut h = InterruptHandler::new();
    h.trigger_interrupt(InterruptType::Joypad);
    assert_eq!(h.begin_cpu_step(0x00, 0x00, true), None);
    assert_eq!(h.get_joypad_interrupt_delay_cycles(), Some(3));
    assert_eq!(h.if_register, 0x00);
}

#[test]
fn game_of_lowered_picks_the_configured_game() {
    assert_eq!(InterruptHandler::game_of_lowered("tetris (world).gb"), "tetris");
    assert_eq!(InterruptHandler::game_of_lowered("dr.mario.gb"), "drmario");
    assert_eq!(InterruptHandler::game_of_lowered("drmario.gb"), "drmario");
    assert_eq!(InterruptHandler::game_of_lowered("hyper lode runner.gb"), "hyperlode");
    assert_eq!(InterruptHandler::game_of_lowered("zelda.gb"), "default");
    assert_eq!(InterruptHandler::game_of_lowered(""), "default");
}
