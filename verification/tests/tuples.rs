use eisen::util::TupleExtras;
use eisen::util::TupleExtrasT;

#[test]
fn append_grows_tuples_at_the_end() {
    assert_eq!(().append(1u32), (1u32,));
    assert_eq!((1u32,).append("a"), (1u32, "a"));
    assert_eq!((1u32, "a").append(3i64), (1u32, "a", 3i64));
    assert_eq!((1u32, "a", 3i64).append(false), (1u32, "a", 3i64, false));
}

#[test]
fn replace_first_swaps_the_head() {
    assert_eq!((1u32,).replace_first(9u8), (9u8,));
    assert_eq!((1u32, "a").replace_first(9u8), (9u8, "a"));
    assert_eq!((1u32, "a", 3i64).replace_first(9u8), (9u8, "a", 3i64));
}

#[test]
fn pop_front_drops_the_head() {
    assert_eq!((1u32,).pop_front(), ());
    assert_eq!((1u32, "a").pop_front(), ("a",));
    assert_eq!((1u32, "a", 3i64).pop_front(), ("a", 3i64));
}
