use std::sync::Mutex;

use easy_parallel::Parallel;

fn unit<'a>(f: impl FnOnce() + 'a) -> Box<dyn FnOnce() + 'a> {
    Box::new(f)
}

#[test]
fn smoke() {
    let m = Mutex::new(0);
    let v = vec![2, 3, 5, 7, 11];

    let shared = &m;
    let registry = Parallel::new()
        .add(unit(move || *shared.lock().unwrap() += 10))
        .add(unit(move || *shared.lock().unwrap() += 20))
        .each(v.clone(), move |n| unit(move || *shared.lock().unwrap() += n));
    for u in registry.into_units() {
        u();
    }

    assert_eq!(m.into_inner().unwrap(), 10 + 20 + v.iter().sum::<i32>());
}
