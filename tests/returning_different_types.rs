// Ways to control the return type of a function independently of its input types.
use std::marker::PhantomData;

// Without type parameters, each conversion needs its own function.
fn convert_f64(a: i16) -> f64 {
    f64::from(a)
}

fn convert_f32(a: i16) -> f32 {
    f32::from(a)
}

// A parameterized function lets the caller choose the return type.
fn convert<T: From<i16>>(a: i16) -> T {
    T::from(a)
}

// An instance controls the return type: a converter of type Converter<U>
// converts anything that converts into U.
struct Converter<DestType> {
    _phantom: PhantomData<DestType>,
}

impl<U> Converter<U> {
    fn new() -> Self {
        Self { _phantom: PhantomData }
    }

    fn convert<T: Into<U>>(&self, a: T) -> U {
        a.into()
    }
}

// The trait implementer controls the return type through an associated type.
trait Convertable {
    type Output;

    fn convert(&self) -> Self::Output;
}

struct Value<T> {
    a: T,
}

impl Convertable for Value<i16> {
    type Output = f32;

    fn convert(&self) -> Self::Output {
        Self::Output::from(self.a)
    }
}

impl Convertable for Value<i32> {
    type Output = f64;

    fn convert(&self) -> Self::Output {
        Self::Output::from(self.a)
    }
}

#[test]
fn returning_different_types_test() {
    // explicit overloading
    assert_eq!(convert_f64(4), 4.0f64);
    assert_eq!(convert_f32(4), 4.0f32);

    // generic return type
    assert_eq!(convert::<f64>(4), 4.0f64);
    assert_eq!(convert::<f32>(4), 4.0f32);
    let _a: f32 = convert(3);
    let _a = convert::<f64>(3);

    // instance controls return type
    let c0 = Converter::new();
    let out: f64 = c0.convert(4);
    assert_eq!(out, 4.0f64);

    let c1 = Converter::<f64>::new();
    assert_eq!(c1.convert(4i32), 4.0f64);
    assert_eq!(c1.convert(4i16), 4.0f64);
    assert_eq!(c1.convert(4f32), 4.0f64);

    let c2 = Converter::<f32>::new();
    assert_eq!(c2.convert(4i16), 4.0f32);

    // trait implementer controls return type
    let v1 = Value { a: 4i16 };
    assert_eq!(v1.convert(), 4.0f32);

    let v2 = Value { a: 4i32 };
    assert_eq!(v2.convert(), 4.0f64);
}
