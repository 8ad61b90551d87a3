use salsa_runtime::cancelled::{Cancelled, Caught, Payload};
use salsa_runtime::key::{DatabaseKeyIndex, Id, IngredientIndex};

fn canonicalize() -> Cancelled {
    let canonical = DatabaseKeyIndex::new(IngredientIndex::new(1), Id::from_bits(2));
    Cancelled::CycleCanonicalize { canonical }
}

#[test]
fn messages_name_the_reason() {
    assert_eq!(
        Cancelled::Local.message(),
        "cancelled because of local cancellation request"
    );
    assert_eq!(Cancelled::PendingWrite.message(), "cancelled because of pending write");
    assert_eq!(Cancelled::PropagatedPanic.message(), "cancelled because of propagated panic");
    assert_eq!(
        Cancelled::CycleLoser.message(),
        "cancelled because of losing a cross-thread cycle race"
    );
    assert_eq!(
        canonicalize().message(),
        "cancelled because of canonical cycle re-evaluation"
    );
}

#[test]
fn catch_lets_values_through() {
    let caught = Cancelled::catch::<u32, &str>(Ok(3));
    assert_eq!(caught, Caught::Returned(Ok(3)));
}

#[test]
fn catch_stops_cancellations() {
    let caught = Cancelled::catch::<u32, &str>(Err(Payload::Cancelled(canonicalize())));
    assert_eq!(caught, Caught::Returned(Err(canonicalize())));
}

#[test]
fn catch_resumes_panics() {
    let caught = Cancelled::catch::<u32, &str>(Err(Payload::Panic("boom")));
    assert_eq!(caught, Caught::Resume("boom"));
}
