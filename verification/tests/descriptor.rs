use rustpython_derive::descriptor::{OptionalArg, PyBuiltinDescriptor};

#[derive(Debug, Clone, Copy, PartialEq, Eq)]
struct Object {
    address: usize,
}

struct Constant;

impl PyBuiltinDescriptor for Constant {
    type Object = Object;
    type Output = Result<Object, String>;

    fn get(_zelf: Self, obj: Object, cls: OptionalArg<Object>) -> Result<Object, String> {
        let class = match cls {
            OptionalArg::Present(class) => OptionalArg::Present(class.address),
            OptionalArg::Missing => OptionalArg::Missing,
        };
        if Self::_cls_is(&class, obj.address) {
            Err("the type itself".to_string())
        } else {
            Ok(obj)
        }
    }
}

#[test]
fn a_missing_class_is_no_object() {
    assert!(!Constant::_cls_is(&OptionalArg::Missing, 0));
    assert!(!Constant::_cls_is(&OptionalArg::Missing, 7));
}

#[test]
fn a_given_class_is_the_object_of_the_same_identity() {
    let class = OptionalArg::Present(7);
    assert!(Constant::_cls_is(&class, 7));
    assert!(!Constant::_cls_is(&class, 8));
    assert!(!Constant::_cls_is(&class, 0));
    assert!(Constant::_cls_is(&OptionalArg::Present(usize::MAX), usize::MAX));
}

#[test]
fn a_descriptor_reads_through_get() {
    let object = Object { address: 3 };
    assert_eq!(Constant::get(Constant, object, OptionalArg::Missing), Ok(object));
    assert_eq!(
        Constant::get(Constant, object, OptionalArg::Present(Object { address: 4 })),
        Ok(object)
    );
    assert_eq!(
        Constant::get(Constant, object, OptionalArg::Present(object)),
        Err("the type itself".to_string())
    );
}
