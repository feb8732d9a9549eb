use std::sync::Arc;

fn is_convertable<T: Into<i64>>(_n: T) {}

trait MarkerTrait {}

// Compile time helper: only types with the marker are accepted
fn is_marked<A: MarkerTrait>(_: A) {}

struct WrapperOne<A>(A);
impl<A> MarkerTrait for WrapperOne<A> {}

trait MarkerOf<A> {}

struct WrapperOf<A>(A);
impl<A> MarkerOf<A> for WrapperOf<A> {}

fn is_send_marked<A, B>(_: B)
where
    A: Send + 'static,
    B: MarkerOf<A>,
{
}

#[test]
fn compile_time_conversion_checking() {
    is_convertable(1);
    is_convertable(1i8);
    is_convertable(1i16);
    is_convertable(1i32);
    is_convertable(1i64);
    is_convertable(1u8);
    is_convertable(1u16);
    is_convertable(1u32);
}

#[test]
fn compile_time_marker_trait_checking() {
    is_marked(WrapperOne(1));
}

#[test]
fn compile_time_send_safe_checking() {
    is_send_marked(WrapperOf(1));
    is_send_marked(WrapperOf("Hello"));
    is_send_marked(WrapperOf(Box::new(1)));
    is_send_marked(WrapperOf(Arc::new(5)));
}
