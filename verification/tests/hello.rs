use capnez_codegen::decl::Item;
use capnez_codegen::hello::{
    declarations, HelloReply, HelloRequest, HelloWorld, HelloWorldImpl, Information,
};

#[test]
fn the_service_greets_by_name() {
    let request = HelloRequest {
        name: "Ada".to_string(),
        information: Information { major: "Computer Science".to_string(), age: 25 },
    };
    assert_eq!(
        HelloWorldImpl::say_hello(request),
        HelloReply {
            message: "Hello, Ada! Your major is Computer Science and you are 25 years old."
                .to_string(),
        }
    );
}

#[test]
fn the_greeting_takes_any_age() {
    let request = HelloRequest {
        name: String::new(),
        information: Information { major: String::new(), age: u32::MAX },
    };
    assert_eq!(
        HelloWorldImpl::say_hello(request).message,
        "Hello, ! Your major is  and you are 4294967295 years old."
    );
    let request = HelloRequest {
        name: "Z".to_string(),
        information: Information { major: "M".to_string(), age: 0 },
    };
    assert_eq!(
        HelloWorldImpl::say_hello(request).message,
        "Hello, Z! Your major is M and you are 0 years old."
    );
}

#[test]
fn the_service_declares_three_records_and_a_trait() {
    let items = declarations();
    assert_eq!(items.len(), 4);
    let names: Vec<&str> = items
        .iter()
        .map(|item| match item {
            Item::Struct(s) => s.name.as_str(),
            Item::Enum(e) => e.name.as_str(),
            Item::Trait(t) => t.name.as_str(),
        })
        .collect();
    assert_eq!(names, vec!["Information", "HelloRequest", "HelloReply", "HelloWorld"]);
    assert!(matches!(&items[3], Item::Trait(t) if t.methods[0].name == "say_hello"));
}
