use rusty_halloween::color::Rgb8;
use rusty_halloween::led_executor::{execution_loop_sleep_ms, LedExecutor, MAX_LEDS};
use rusty_halloween::show::{DeviceCommand, TimedInstruction};

#[test]
fn test_instruction_ordering() {
    let mut executor = LedExecutor::new(10);

    // Add instructions out of order
    executor.add_instruction(TimedInstruction {
        timestamp: 1000,
        command: DeviceCommand::Light { enabled: true },
    });
    executor.add_instruction(TimedInstruction {
        timestamp: 500,
        command: DeviceCommand::Rgb { r: 255, g: 0, b: 0 },
    });
    executor.add_instruction(TimedInstruction {
        timestamp: 2000,
        command: DeviceCommand::Light { enabled: false },
    });

    // Should execute in timestamp order
    assert_eq!(executor.next_instruction_time(), Some(500));

    executor.execute_due_instructions(500);
    assert_eq!(executor.next_instruction_time(), Some(1000));

    executor.execute_due_instructions(1000);
    assert_eq!(executor.next_instruction_time(), Some(2000));

    executor.execute_due_instructions(2000);
    assert_eq!(executor.next_instruction_time(), None);
}

#[test]
fn due_commands_apply_in_time_order() {
    let mut executor = LedExecutor::new(3);
    executor.add_instructions(vec![
        TimedInstruction { timestamp: 30, command: DeviceCommand::Light { enabled: false } },
        TimedInstruction { timestamp: 10, command: DeviceCommand::Light { enabled: true } },
        TimedInstruction { timestamp: 20, command: DeviceCommand::Rgb { r: 1, g: 2, b: 3 } },
        TimedInstruction { timestamp: 90, command: DeviceCommand::Custom { data: vec![7] } },
    ]);
    assert_eq!(executor.queue_len(), 4);
    assert!(executor.execute_due_instructions(5).is_none());
    let data = executor.execute_due_instructions(25).unwrap();
    assert_eq!(data, vec![Rgb8 { r: 1, g: 2, b: 3 }; 3]);
    assert_eq!(executor.current_color(), Rgb8 { r: 1, g: 2, b: 3 });
    assert_eq!(executor.queue_len(), 2);
    executor.execute_due_instructions(100);
    assert_eq!(executor.current_color(), Rgb8 { r: 0, g: 0, b: 0 });
    assert_eq!(executor.queue_len(), 0);
}

#[test]
fn light_on_turns_black_into_white_only() {
    let mut executor = LedExecutor::new(1);
    executor.add_instruction(TimedInstruction {
        timestamp: 0,
        command: DeviceCommand::Light { enabled: true },
    });
    executor.execute_due_instructions(0);
    assert_eq!(executor.current_color(), Rgb8 { r: 255, g: 255, b: 255 });
    executor.add_instruction(TimedInstruction {
        timestamp: 1,
        command: DeviceCommand::Rgb { r: 9, g: 8, b: 7 },
    });
    executor.add_instruction(TimedInstruction {
        timestamp: 2,
        command: DeviceCommand::Light { enabled: true },
    });
    executor.execute_due_instructions(2);
    assert_eq!(executor.current_color(), Rgb8 { r: 9, g: 8, b: 7 });
}

#[test]
fn clearing_and_defaults() {
    let mut executor = LedExecutor::default();
    executor.add_instruction(TimedInstruction {
        timestamp: 4,
        command: DeviceCommand::Light { enabled: true },
    });
    executor.clear_queue();
    assert_eq!(executor.queue_len(), 0);
    assert_eq!(executor.next_instruction_time(), None);
    assert_eq!(MAX_LEDS, 35);
}

#[test]
fn player_sleep_is_capped() {
    assert_eq!(execution_loop_sleep_ms(None, 0), 100);
    assert_eq!(execution_loop_sleep_ms(Some(1030), 1000), 30);
    assert_eq!(execution_loop_sleep_ms(Some(5000), 1000), 100);
    assert_eq!(execution_loop_sleep_ms(Some(900), 1000), 1);
}
