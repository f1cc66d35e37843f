use env_closure::RefClosure;

struct Tally {
    seen: Vec<u64>,
    count: u64,
}

fn tally() -> Tally {
    Tally { seen: vec![4, 8, 15, 16, 23, 42], count: 6 }
}

fn count_plus(env: &Tally, args: (u64,)) -> u64 {
    env.count + args.0
}

fn sum_above(env: &Tally, args: (u64,)) -> u64 {
    let mut sum: u64 = 0;
    for x in env.seen.iter() {
        if *x > args.0 {
            sum += *x;
        }
    }
    sum
}

fn lookup(env: &Vec<u64>, args: (usize,)) -> Result<u64, String> {
    match env.get(args.0) {
        Some(x) => Ok(*x),
        None => Err(format!("no item {}", args.0)),
    }
}

fn first_site(c: &RefClosure<Tally, (u64,), u64>) -> (u64, u64) {
    (c.call((15,)), c.call((0,)))
}

fn second_site(c: &RefClosure<Tally, (u64,), u64>) -> (u64, u64) {
    let low = c.call((0,));
    let high = c.call((15,));
    (high, low)
}

#[test]
fn ref_closure_returns_what_its_function_returns() {
    let c = RefClosure::new(tally(), sum_above);
    assert_eq!(c.call((15,)), 81);
    assert_eq!(c.call((15,)), sum_above(&tally(), (15,)));
    assert_eq!(c.call((42,)), 0);
    assert_eq!(c.call((0,)), 108);
}

#[test]
fn ref_closure_returns_the_same_every_time() {
    let c = RefClosure::new(tally(), count_plus);
    let first = c.call((10,));
    assert_eq!(first, 16);
    let mut n: u32 = 1;
    while n < 100 {
        assert_eq!(c.call((10,)), first);
        n += 1;
    }
}

#[test]
fn ref_closure_serves_call_sites_in_any_order() {
    let c: RefClosure<Tally, (u64,), u64> = RefClosure::new(tally(), sum_above);
    let a = first_site(&c);
    let b = second_site(&c);
    let d = second_site(&c);
    let e = first_site(&c);
    assert_eq!(a, (81, 108));
    assert_eq!(b, a);
    assert_eq!(d, a);
    assert_eq!(e, a);
}

#[test]
fn ref_closure_is_called_alike_through_every_access() {
    let mut c = RefClosure::new(tally(), count_plus);
    let shared = c.call((1,));
    let exclusive = c.call_mut((1,));
    let shared_again = c.call((1,));
    let owned = c.call_once((1,));
    assert_eq!(shared, 7);
    assert_eq!(exclusive, 7);
    assert_eq!(shared_again, 7);
    assert_eq!(owned, 7);
}

#[test]
fn ref_closure_hands_a_failure_on_as_it_is() {
    let c = RefClosure::new(vec![10u64, 20, 30], lookup);
    assert_eq!(c.call((1,)), Ok(20));
    assert_eq!(c.call((3,)), Err(String::from("no item 3")));
    assert_eq!(c.call((1,)), Ok(20));
}

#[test]
fn ref_closure_holds_a_function_pointer_where_no_type_is_named() {
    let c: RefClosure<Vec<u64>, (usize,), Result<u64, String>> =
        RefClosure::new(vec![1u64, 2], lookup);
    assert_eq!(
        std::mem::size_of_val(&c),
        std::mem::size_of::<(Vec<u64>, fn(&Vec<u64>, (usize,)) -> Result<u64, String>)>()
    );
    assert_eq!(c.call((0,)), Ok(1));
}

#[test]
fn ref_closure_lends_a_borrowed_environment() {
    let words = vec![String::from("a"), String::from("bc")];
    let c = RefClosure::new((&words,), |env: &(&Vec<String>,), args: (usize,)| {
        env.0[args.0].len()
    });
    assert_eq!(c.call((0,)), 1);
    assert_eq!(c.call((1,)), 2);
    assert_eq!(words.len(), 2);
}
