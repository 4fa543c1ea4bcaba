use ownership_models::my_box::MyBox;

/// A number type that knows what it is called.
trait Named {
    fn name(&self) -> &'static str;
}

impl Named for i8 { fn name(&self) -> &'static str { "i8" } }
impl Named for i16 { fn name(&self) -> &'static str { "i16" } }
impl Named for i32 { fn name(&self) -> &'static str { "i32" } }
impl Named for i64 { fn name(&self) -> &'static str { "i64" } }
impl Named for u8 { fn name(&self) -> &'static str { "u8" } }
impl Named for u16 { fn name(&self) -> &'static str { "u16" } }
impl Named for u32 { fn name(&self) -> &'static str { "u32" } }
impl Named for u64 { fn name(&self) -> &'static str { "u64" } }
impl Named for f32 { fn name(&self) -> &'static str { "f32" } }
impl Named for f64 { fn name(&self) -> &'static str { "f64" } }

/// The type of the given value, as a string slice.
fn type_of<T: Named>(value: T) -> &'static str {
    value.name()
}

#[test] fn integer() { assert_eq!(type_of(3),    "i32"); }
#[test] fn float()   { assert_eq!(type_of(3.14), "f64"); }

#[test]
fn wrapped_literals_keep_their_default_types() {
    assert_eq!(type_of(MyBox::new(3).into_inner()), "i32");
    assert_eq!(type_of(MyBox::new(3.5).into_inner()), "f64");
}
