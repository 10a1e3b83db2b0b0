use daleks::random::shuffled;

#[test]
fn shuffled_holds_every_number_once() {
    let mut rng = rand::thread_rng();
    for n in [0usize, 1, 2, 5, 21, 78, 1000] {
        let order = shuffled(n, &mut rng);
        assert_eq!(order.len(), n);
        let mut sorted = order.clone();
        sorted.sort();
        assert_eq!(sorted, (0..n).collect::<Vec<usize>>());
    }
}

#[test]
fn shuffled_changes_the_order() {
    let mut rng = rand::thread_rng();
    let plain: Vec<usize> = (0..200).collect();
    let first = shuffled(200, &mut rng);
    let second = shuffled(200, &mut rng);
    assert_ne!(first, plain);
    assert_ne!(second, plain);
    assert_ne!(first, second);
}

#[test]
fn shuffled_puts_every_number_first_sooner_or_later() {
    let mut rng = rand::thread_rng();
    let mut seen = [false; 4];
    for _ in 0..400 {
        seen[shuffled(4, &mut rng)[0]] = true;
    }
    assert_eq!(seen, [true; 4]);
}
