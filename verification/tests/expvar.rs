use std::cell::Cell;
use std::rc::Rc;

use expvar::{init, publish, to_decimal, vars, Func, Gate, Int, Registry, Var};

#[test]
fn it_works() {
}

#[test]
fn vars_absent_before_init() {
    let g: Gate<usize> = Gate::new();
    assert!(vars(&g).is_none());
}

#[test]
fn vars_present_and_empty_after_init() {
    let mut g: Gate<usize> = Gate::new();
    init(&mut g);
    let snap = vars(&g);
    assert!(snap.is_some());
    assert_eq!(snap.unwrap().len(), 0);
}

#[test]
fn publishes_before_init_are_lost() {
    let mut g: Gate<usize> = Gate::new();
    publish(&mut g, "early".to_string(), 1);
    publish(&mut g, "too".to_string(), 2);
    assert!(vars(&g).is_none());
    init(&mut g);
    let snap = vars(&g).unwrap();
    assert_eq!(snap.len(), 0);
}

#[test]
fn init_twice_is_noop() {
    let mut g: Gate<usize> = Gate::new();
    init(&mut g);
    publish(&mut g, "kept".to_string(), 5);
    init(&mut g);
    let snap = vars(&g).unwrap();
    assert_eq!(snap.len(), 1);
    assert_eq!(snap[0].0, "kept");
    assert_eq!(snap[0].1, 5);
}

#[test]
fn vars_reflect_latest_publishes() {
    let mut g: Gate<usize> = Gate::new();
    init(&mut g);
    publish(&mut g, "a".to_string(), 1);
    publish(&mut g, "b".to_string(), 2);
    publish(&mut g, "a".to_string(), 3);
    let snap = vars(&g).unwrap();
    assert_eq!(snap.len(), 2);
    let mut seen_a = 0;
    let mut seen_b = 0;
    for (name, value) in &snap {
        if name == "a" {
            seen_a += 1;
            assert_eq!(*value, 3);
        } else if name == "b" {
            seen_b += 1;
            assert_eq!(*value, 2);
        } else {
            panic!("unexpected name {}", name);
        }
    }
    assert_eq!(seen_a, 1);
    assert_eq!(seen_b, 1);
}

#[test]
fn overwrite_keeps_single_entry() {
    let a: &'static Int = Box::leak(Box::new(Int::new(1)));
    let b: &'static Int = Box::leak(Box::new(Int::new(2)));
    let mut g: Gate<&'static Int> = Gate::new();
    init(&mut g);
    publish(&mut g, "x".to_string(), a);
    publish(&mut g, "x".to_string(), b);
    let snap = vars(&g).unwrap();
    assert_eq!(snap.len(), 1);
    assert_eq!(snap[0].0, "x");
    assert_eq!(snap[0].1.value(), "2");
}

#[test]
fn many_distinct_publishes_all_kept() {
    let producers = 4;
    let names_each = 8;
    let mut g: Gate<usize> = Gate::new();
    init(&mut g);
    for p in 0..producers {
        for n in 0..names_each {
            publish(&mut g, format!("p{}n{}", p, n), p * 100 + n);
        }
    }
    let snap = vars(&g).unwrap();
    assert_eq!(snap.len(), producers * names_each);
    for p in 0..producers {
        for n in 0..names_each {
            let wanted = format!("p{}n{}", p, n);
            let hits: Vec<&(String, usize)> =
                snap.iter().filter(|e| e.0 == wanted).collect();
            assert_eq!(hits.len(), 1);
            assert_eq!(hits[0].1, p * 100 + n);
        }
    }
}

#[test]
fn counter_counts_to_hundred() {
    let mut c = Int::new(0);
    for _ in 0..100 {
        c.add(1);
    }
    assert_eq!(c.value(), "100");
}

#[test]
fn counter_starts_where_told() {
    let c = Int::new(41);
    assert_eq!(c.value(), "41");
    let mut c = c;
    c.add(1);
    assert_eq!(c.value(), "42");
}

#[test]
fn decimal_rendering_is_exact() {
    assert_eq!(to_decimal(0), "0");
    assert_eq!(to_decimal(7), "7");
    assert_eq!(to_decimal(10), "10");
    assert_eq!(to_decimal(100), "100");
    assert_eq!(to_decimal(12345), "12345");
    assert_eq!(to_decimal(4294967295), "4294967295");
}

#[test]
fn function_value_is_fresh() {
    let external = Rc::new(Cell::new(1usize));
    let seen = external.clone();
    let f = Func::new(move || to_decimal(seen.get()));
    let first = f.value();
    external.set(2);
    let second = f.value();
    assert_eq!(first, "1");
    assert_eq!(second, "2");
    assert_ne!(first, second);
}

#[test]
fn registry_publish_direct() {
    let mut r: Registry<usize> = Registry::new();
    r.publish("one".to_string(), 1);
    r.publish("two".to_string(), 2);
    r.publish("one".to_string(), 11);
    let snap = r.snapshot();
    assert_eq!(snap.len(), 2);
    for (name, value) in &snap {
        if name == "one" {
            assert_eq!(*value, 11);
        } else {
            assert_eq!(name, "two");
            assert_eq!(*value, 2);
        }
    }
}

#[test]
fn snapshot_is_independent_copy() {
    let mut g: Gate<usize> = Gate::new();
    init(&mut g);
    publish(&mut g, "a".to_string(), 1);
    let mut snap = vars(&g).unwrap();
    snap.push(("b".to_string(), 2));
    snap[0].1 = 99;
    let fresh = vars(&g).unwrap();
    assert_eq!(fresh.len(), 1);
    assert_eq!(fresh[0].0, "a");
    assert_eq!(fresh[0].1, 1);
}

#[test]
fn registry_serves_value_handles() {
    let counter: &'static Int = Box::leak(Box::new(Int::new(3)));
    let ticks = Rc::new(Cell::new(7usize));
    let seen = ticks.clone();
    let clock: &'static dyn Var =
        Box::leak(Box::new(Func::new(move || to_decimal(seen.get()))));
    let mut g: Gate<&'static dyn Var> = Gate::new();
    init(&mut g);
    publish(&mut g, "counter".to_string(), counter);
    publish(&mut g, "clock".to_string(), clock);
    let snap = vars(&g).unwrap();
    assert_eq!(snap.len(), 2);
    ticks.set(8);
    for (name, handle) in &snap {
        if name == "counter" {
            assert_eq!(handle.value(), "3");
        } else {
            assert_eq!(name, "clock");
            assert_eq!(handle.value(), "8");
        }
    }
}
