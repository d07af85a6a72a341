#[test]
fn cache_test() {
    println!("test");
}
