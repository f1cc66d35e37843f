use std::any::TypeId;

use env_closure::{MoveClosure, RefClosure, RefMutClosure};

fn type_id_of<T: ?Sized + 'static>(_: &T) -> TypeId {
    TypeId::of::<T>()
}

fn empty_move(env: (), args: ()) -> () {
    let () = env;
    let () = args;
}

fn empty_ref_mut(env: &mut (), args: ()) -> () {
    let () = env;
    let () = args;
}

fn empty_ref(env: &(), args: ()) -> () {
    let () = env;
    let () = args;
}

#[test]
fn test_empty_move_closure() {
    let env = ();
    let c = MoveClosure::<(), (), ()>::new(env, empty_move);
    assert_eq!(type_id_of(&c), TypeId::of::<MoveClosure<(), (), ()>>());
    assert_eq!(c.call_once(()), ());
}

#[test]
fn test_empty_ref_mut_closure() {
    let env = ();
    let mut c = RefMutClosure::<(), (), ()>::new(env, empty_ref_mut);
    assert_eq!(type_id_of(&c), TypeId::of::<RefMutClosure<(), (), ()>>());
    assert_eq!(c.call_mut(()), ());
    assert_eq!(c.call_mut(()), ());
}

#[test]
fn test_empty_ref_closure() {
    let env = ();
    let c = RefClosure::<(), (), ()>::new(env, empty_ref);
    assert_eq!(type_id_of(&c), TypeId::of::<RefClosure<(), (), ()>>());
    assert_eq!(c.call(()), ());
    assert_eq!(c.call(()), ());
}
