use const_util::result::{expect_err, expect_ok, unwrap_err, unwrap_ok};

fn double_ok<E>(res: Result<i32, E>) -> Result<i32, E> {
    if res.is_ok() {
        Ok(2 * unwrap_ok(res))
    } else {
        res
    }
}

fn double_err<T>(res: Result<T, i32>) -> Result<T, i32> {
    if res.is_err() {
        Err(2 * unwrap_err(res))
    } else {
        res
    }
}

#[test]
fn unwrapping_the_known_variant() {
    assert_eq!(double_ok(Ok::<_, String>(1)), Ok(2));
    assert_eq!(double_ok(Err::<i32, _>(String::from("e"))), Err(String::from("e")));
    assert_eq!(double_err(Err::<String, _>(1)), Err(2));
    assert_eq!(expect_ok(Ok::<_, ()>(String::from("ABC")), "unreachable"), "ABC");
    assert_eq!(expect_err(Err::<(), _>(vec![1, 2]), "unreachable"), vec![1, 2]);
}
