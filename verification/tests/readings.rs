//! Tests of the reading normalizer, its boundary values, and the decimal
//! rendering, plus the gauge table's registration rules.

use deconz_exporter::num::Num;
use deconz_exporter::registry::{Registry, RegistryError};

fn text(n: Num) -> String {
    String::from_utf8(n.to_text()).unwrap()
}

#[test]
fn normalize_leaves_small_magnitudes_alone() {
    let v = Num { mant: 100, scale: 0 };
    assert_eq!(v.normalize(), v);
    let v = Num { mant: -100, scale: 0 };
    assert_eq!(v.normalize(), v);
    let v = Num { mant: 9917, scale: 2 };
    assert_eq!(v.normalize(), v);
    let v = Num { mant: 0, scale: 0 };
    assert_eq!(v.normalize(), v);
}

#[test]
fn normalize_divides_large_magnitudes_by_one_hundred() {
    assert_eq!(Num { mant: 10001, scale: 2 }.normalize(), Num { mant: 10001, scale: 4 });
    assert_eq!(Num { mant: 2134, scale: 0 }.normalize(), Num { mant: 2134, scale: 2 });
    assert_eq!(Num { mant: -550, scale: 0 }.normalize(), Num { mant: -550, scale: 2 });
    assert_eq!(Num { mant: 101, scale: 0 }.normalize(), Num { mant: 101, scale: 2 });
}

#[test]
fn normalize_boundary_uses_magnitude_strictly_above_one_hundred() {
    assert_eq!(text(Num { mant: 100, scale: 0 }.normalize()), "100");
    assert_eq!(text(Num { mant: 10001, scale: 2 }.normalize()), "1.0001");
}

#[test]
fn decimal_rendering_is_canonical() {
    assert_eq!(text(Num { mant: 2090, scale: 2 }), "20.9");
    assert_eq!(text(Num { mant: 4917, scale: 2 }), "49.17");
    assert_eq!(text(Num { mant: 1003, scale: 0 }), "1003");
    assert_eq!(text(Num { mant: 0, scale: 3 }), "0");
    assert_eq!(text(Num { mant: 5, scale: 2 }), "0.05");
    assert_eq!(text(Num { mant: -5, scale: 1 }), "-0.5");
    assert_eq!(text(Num { mant: 1500, scale: 1 }), "150");
}

#[test]
fn registering_the_same_shape_twice_is_idempotent() {
    let mut reg = Registry::new();
    assert!(reg
        .register(b"up".to_vec(), b"Up flag".to_vec(), vec![b"host".to_vec()])
        .is_ok());
    assert!(reg
        .register(b"up".to_vec(), b"Up flag".to_vec(), vec![b"host".to_vec()])
        .is_ok());
    let text = String::from_utf8(reg.render()).unwrap();
    assert_eq!(text.matches("# HELP up").count(), 1);
}

#[test]
fn registering_a_conflicting_shape_is_refused() {
    let mut reg = Registry::new();
    reg.register(b"up".to_vec(), b"Up flag".to_vec(), vec![b"host".to_vec()]).unwrap();
    let r = reg.register(b"up".to_vec(), b"Up flag".to_vec(), vec![b"host".to_vec(), b"port".to_vec()]);
    assert_eq!(r.unwrap_err(), RegistryError::Conflict);
}

#[test]
fn observations_overwrite_and_misses_change_nothing() {
    let mut reg = Registry::new();
    reg.register(b"up".to_vec(), b"Up flag".to_vec(), vec![b"host".to_vec()]).unwrap();
    assert!(reg.observe(&b"up".to_vec(), vec![b"a".to_vec()], Num { mant: 1, scale: 0 }));
    assert!(reg.observe(&b"up".to_vec(), vec![b"a".to_vec()], Num { mant: 0, scale: 0 }));
    assert!(!reg.observe(&b"down".to_vec(), vec![b"a".to_vec()], Num { mant: 1, scale: 0 }));
    assert!(!reg.observe(&b"up".to_vec(), vec![], Num { mant: 1, scale: 0 }));
    let text = String::from_utf8(reg.render()).unwrap();
    assert!(text.contains("up{host=\"a\"} 0\n"));
    assert!(!text.contains("} 1\n"));
}
