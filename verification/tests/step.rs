use grid_sequencer::sim::entity::{Step, Trigger};
use grid_sequencer::sim::grid::Position;
use grid_sequencer::sim::audio::{new_engine, SOURCES};
use screech::Screech;

#[test]
fn a_triggered_step_discharges_for_its_charge() {
    let mut screech: Screech = Screech::new(8, 48_000);
    let mut step = Step::new(&mut screech, usize::MAX).unwrap();
    step.trigger(3);
    let out = step.process(&[false, false, false, false, false]);
    assert_eq!(out, vec![true, true, true, false, false]);
    assert_eq!(step.max_charge, 2);
}

#[test]
fn a_high_input_charges_the_step() {
    let mut screech: Screech = Screech::new(8, 48_000);
    let mut step = Step::new(&mut screech, usize::MAX).unwrap();
    let out = step.process(&[true, true, false, false, false, true, false]);
    assert_eq!(out, vec![false, false, true, true, false, false, true]);
    assert_eq!(step.max_charge, 2);
}

#[test]
fn a_step_has_its_own_signals() {
    let mut screech: Screech = Screech::new(8, 48_000);
    let first = Step::new(&mut screech, usize::MAX).unwrap();
    let second = Step::new(&mut screech, usize::MAX).unwrap();
    assert_ne!(first.get_source_id(), second.get_source_id());
    assert_eq!(first.get_input().get_signal_id(), "input");
    assert_eq!(first.output.get_signal_id(), "output");
    assert_eq!(first.get_input().get_source_id(), first.get_source_id());
    assert_eq!(first.get_position(), Position::origin());
}

#[test]
fn a_step_moves() {
    let mut screech: Screech = Screech::new(8, 48_000);
    let mut step = Step::new(&mut screech, usize::MAX).unwrap();
    step.set_position(Position::new(4, -2));
    assert_eq!(step.get_position(), Position::new(4, -2));
    assert!(step.process(&[]).is_empty());
}

#[test]
fn a_step_tells_how_much_room_its_charge_has() {
    let mut screech: Screech = Screech::new(8, 48_000);
    let mut step = Step::new(&mut screech, usize::MAX).unwrap();
    assert!(step.has_room_for(16));
    step.trigger(usize::MAX - 4);
    assert!(step.has_room_for(3));
    assert!(!step.has_room_for(4));
}

#[test]
fn chained_steps_pass_on_the_charge() {
    let mut screech: Screech = Screech::new(4, 48_000);
    let mut step_1 = Step::new(&mut screech, usize::MAX).unwrap();
    let mut step_2 = Step::new(&mut screech, usize::MAX).unwrap();
    step_1.trigger(3);

    let out_1 = step_1.process(&[false, false, false, false]);
    let out_2 = step_2.process(&out_1);
    assert_eq!(out_1, vec![true, true, true, false]);
    assert_eq!(out_2, vec![false, false, false, true]);

    let out_1 = step_1.process(&[false, false, false, false]);
    let out_2 = step_2.process(&out_1);
    assert_eq!(out_1, vec![false, false, false, false]);
    assert_eq!(out_2, vec![true, true, false, false]);
}

#[test]
fn a_step_is_made_for_the_source_it_is_given() {
    let mut screech: Screech = Screech::new(8, 48_000);
    let step = Step::from_source_id(&mut screech, 5, 8).unwrap();
    assert_eq!(*step.get_source_id(), 5);
    assert_eq!(*step.get_input().get_source_id(), 5);
    assert_eq!(*step.output.get_source_id(), 5);
    assert!(Step::from_source_id(&mut screech, 8, 8).is_none());
    assert!(Step::from_source_id(&mut screech, 9, 8).is_none());
}

#[test]
fn a_trigger_is_made_for_the_source_it_is_given() {
    let mut screech: Screech = Screech::new(8, 48_000);
    let trigger = Trigger::from_source_id(&mut screech, 3, 4).unwrap();
    assert_eq!(*trigger.get_source_id(), 3);
    assert_eq!(*trigger.get_output().get_source_id(), 3);
    assert_eq!(trigger.get_output().get_signal_id(), "output");
    assert_eq!(trigger.get_position(), Position::origin());
    assert!(Trigger::from_source_id(&mut screech, 4, 4).is_none());
}

#[test]
fn test_step_external_trigger() {
    let mut screech: Screech = Screech::new(4, 48_000);
    let mut step_1 = Step::new(&mut screech, usize::MAX).unwrap();
    let mut step_2 = Step::new(&mut screech, usize::MAX).unwrap();
    let (level_1, level_2) = (0.8f32, 0.6f32);
    step_1.trigger(3);

    let mixed = |out_1: &[bool], out_2: &[bool]| -> Vec<f32> {
        out_1
            .iter()
            .zip(out_2)
            .map(|(&a, &b)| (if a { level_1 } else { 0.0 }) + (if b { level_2 } else { 0.0 }))
            .collect()
    };

    let out_1 = step_1.process(&[false, false, false, false]);
    let out_2 = step_2.process(&out_1);
    assert_eq!(mixed(&out_1, &out_2), vec![0.8, 0.8, 0.8, 0.6]);

    let out_1 = step_1.process(&[false, false, false, false]);
    let out_2 = step_2.process(&out_1);
    assert_eq!(mixed(&out_1, &out_2), vec![0.6, 0.6, 0.0, 0.0]);
}

#[test]
fn a_new_engine_hands_out_ids_from_one() {
    let mut screech = new_engine(48_000, 8);
    let first = Step::new(&mut screech, SOURCES).unwrap();
    let second = Trigger::new(&mut screech, SOURCES).unwrap();
    assert_eq!(*first.get_source_id(), 1);
    assert_eq!(*second.get_source_id(), 2);
    assert!(Step::new(&mut screech, 3).is_none());
    assert_eq!(*Step::new(&mut screech, SOURCES).unwrap().get_source_id(), 4);
}
