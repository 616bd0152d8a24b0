use rust_dsp::shared_params::slot_for_controller;
use rust_dsp::host_logic::voice_param_for_key;
use rust_dsp::host_logic::VoiceParam;
use rust_dsp::host::key_off;
use rust_dsp::host::key_on;
use rust_dsp::host::Params;
use rust_dsp::host::INITIAL_FREQ_BITS;
use rust_dsp::host_logic::gate_action;
use rust_dsp::host_logic::key_message;
use rust_dsp::host_logic::GateAction;
use rust_dsp::host_logic::KeyMessage;
use rust_dsp::shared_params::ParamSlot;
use rust_dsp::shared_params::SharedParams;
use rust_dsp::shared_params::PARAM1_DEFAULT_BITS;
use rust_dsp::shared_params::PARAM2_DEFAULT_BITS;
use rust_dsp::shared_params::PARAM3_DEFAULT_BITS;
use rust_dsp::shared_params::PARAM4_DEFAULT_BITS;

#[test]
fn params_start_silent_at_a2() {
    let p = Params::new();
    assert_eq!(p.get_gate(), 0);
    assert_eq!(p.get_vel(), 0);
    assert_eq!(f32::from_bits(p.get_freq_bits()), 110.0);
    assert_eq!(INITIAL_FREQ_BITS, 110.0_f32.to_bits());
}

#[test]
fn params_setters_and_getters() {
    let p = Params::new();
    p.set_gate(1);
    p.set_vel(77);
    p.set_midi(60);
    p.set_freq_bits(261.63_f32.to_bits());
    assert_eq!(p.get_gate(), 1);
    assert_eq!(p.get_vel(), 77);
    assert_eq!(p.get_midi(), 60);
    assert_eq!(f32::from_bits(p.get_freq_bits()), 261.63);
}

#[test]
fn key_on_then_key_off_closes_the_gate() {
    let p = Params::new();
    key_on(69, 100, 440.0_f32.to_bits(), &p);
    assert_eq!(p.get_gate(), 1);
    assert_eq!(p.get_vel(), 100);
    assert_eq!(p.get_midi(), 69);
    assert_eq!(f32::from_bits(p.get_freq_bits()), 440.0);
    key_off(70, &p);
    assert_eq!(p.get_gate(), 1);
    key_off(69, &p);
    assert_eq!(p.get_gate(), 0);
    assert_eq!(p.get_vel(), 0);
}

#[test]
fn key_messages() {
    assert_eq!(key_message(&[0x90, 60, 100]), KeyMessage::KeyOn { note: 60, vel: 100 });
    assert_eq!(key_message(&[0x93, 60, 0]), KeyMessage::KeyOff { note: 60 });
    assert_eq!(key_message(&[0x80, 61, 64]), KeyMessage::KeyOff { note: 61 });
    assert_eq!(key_message(&[0x8F, 62]), KeyMessage::KeyOff { note: 62 });
    assert_eq!(key_message(&[0xB0, 74, 64]), KeyMessage::Other);
    assert_eq!(key_message(&[0xF8]), KeyMessage::Other);
}

#[test]
fn gate_actions() {
    assert_eq!(gate_action(0, 1), GateAction::Trigger);
    assert_eq!(gate_action(1, 0), GateAction::Release);
    assert_eq!(gate_action(1, 1), GateAction::Hold);
    assert_eq!(gate_action(0, 0), GateAction::Hold);
    assert_eq!(gate_action(2, 1), GateAction::Hold);
}

#[test]
fn shared_params_defaults() {
    let p = SharedParams::new();
    assert_eq!(f32::from_bits(p.load_bits(ParamSlot::Param1)), 0.4);
    assert_eq!(f32::from_bits(p.load_bits(ParamSlot::Param2)), 0.7);
    assert_eq!(f32::from_bits(p.load_bits(ParamSlot::Param3)), 0.2);
    assert_eq!(f32::from_bits(p.load_bits(ParamSlot::Param4)), 0.15);
    assert_eq!(PARAM1_DEFAULT_BITS, 0.4_f32.to_bits());
    assert_eq!(PARAM2_DEFAULT_BITS, 0.7_f32.to_bits());
    assert_eq!(PARAM3_DEFAULT_BITS, 0.2_f32.to_bits());
    assert_eq!(PARAM4_DEFAULT_BITS, 0.15_f32.to_bits());
}

#[test]
fn shared_params_slots_are_independent() {
    let p = SharedParams::new();
    p.store_bits(ParamSlot::Param3, 0.9_f32.to_bits());
    assert_eq!(f32::from_bits(p.load_bits(ParamSlot::Param3)), 0.9);
    assert_eq!(f32::from_bits(p.load_bits(ParamSlot::Param1)), 0.4);
    assert_eq!(f32::from_bits(p.load_bits(ParamSlot::Param4)), 0.15);
}

#[test]
fn key_level_changes_alternate() {
    let levels = [0u8, 1, 1, 0, 0, 1, 0, 1, 1, 1, 0];
    let mut prev = 0u8;
    let mut down = false;
    for &level in levels.iter() {
        match gate_action(prev, level) {
            GateAction::Trigger => {
                assert!(!down);
                down = true;
            }
            GateAction::Release => {
                assert!(down);
                down = false;
            }
            GateAction::Hold => {}
        }
        prev = level;
    }
    assert!(!down);
}

#[test]
fn controller_map() {
    assert_eq!(slot_for_controller(74), Some(ParamSlot::Param1));
    assert_eq!(slot_for_controller(71), Some(ParamSlot::Param2));
    assert_eq!(slot_for_controller(75), Some(ParamSlot::Param3));
    assert_eq!(slot_for_controller(72), Some(ParamSlot::Param4));
    assert_eq!(slot_for_controller(1), None);
}

#[test]
fn float_parameter_keys() {
    assert_eq!(voice_param_for_key(77), Some(VoiceParam::Cutoff));
    assert_eq!(voice_param_for_key(65), Some(VoiceParam::Resonance));
    assert_eq!(voice_param_for_key(66), None);
}
