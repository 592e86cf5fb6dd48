use try_map::FlipResultExt;

#[test]
fn test_flip_1() {
    fn inner() -> Result<Option<i32>, &'static str> {
        let x = Some(42)
            .map(|x| Ok(x + 1)).flip()?
            .map(|x| Ok(x + 1)).flip()?
            .map(|x| if true { Err("oh noes") } else { Ok(x + 1) }).flip()?
            .map(|x| Ok(x + 1)).flip()?;

        Ok(x)
    }
    assert_eq!(inner(), Err("oh noes"));
}

#[test]
fn test_flip_2() {
    fn inner() -> Result<Option<i32>, &'static str> {
        let x = Some(42)
            .map(|x| Ok(x + 1)).flip()?
            .map(|x| Ok(x + 1)).flip()?
            .map(|x| Ok(x + 1)).flip()?;

        Ok(x)
    }
    assert_eq!(inner(), Ok(Some(45)));
}

#[test]
fn test_flip_3() {
    fn inner() -> Result<Option<i32>, &'static str> {
        let x = Some(42)
            .map(|x| Ok(x + 1)).flip()?
            .map(|x| Ok(x + 1)).flip()?
            .map(|x| if true { Err("oh noes") } else { Ok(x + 1) }).flip()?
            .map(|x| Ok(x + 1)).flip()?
            .map(|x| if true { Err("oh foes") } else { Ok(x + 1) }).flip()?;

        Ok(x)
    }
    assert_eq!(inner(), Err("oh noes"));
}

#[test]
fn test_flip_vec_1() {
    fn inner() -> Result<Vec<i32>, &'static str> {
        let x = vec![42, 100, 99, 1, 42, 10000]
            .into_iter().map(|x| Ok(x + 1)).collect::<Vec<_>>().flip()?;

        Ok(x)
    }
    assert_eq!(inner(), Ok(vec![43, 101, 100, 2, 43, 10001]));
}

#[test]
fn test_flip_vec_2() {
    fn inner() -> Result<Vec<i32>, &'static str> {
        let x = vec![42, 100, 99, 1, 42, 10000]
            .into_iter().map(|x| if true { Err("heatenings") } else { Ok(x + 1) }).collect::<Vec<_>>().flip()?;

        Ok(x)
    }
    assert_eq!(inner(), Err("heatenings"));
}

#[test]
fn flip_option_none() {
    let o: Option<Result<i32, &'static str>> = None;
    assert_eq!(o.flip(), Ok(None));
}

#[test]
fn flip_option_some_ok() {
    let o: Option<Result<i32, &'static str>> = Some(Ok(5));
    assert_eq!(o.flip(), Ok(Some(5)));
}

#[test]
fn flip_option_some_err() {
    let o: Option<Result<i32, &'static str>> = Some(Err("e"));
    assert_eq!(o.flip(), Err("e"));
}

#[test]
fn flip_vec_result_all_ok_keeps_order_and_length() {
    let v: Vec<Result<i32, &'static str>> =
        vec![Ok(43), Ok(101), Ok(100), Ok(2), Ok(43), Ok(10001)];
    assert_eq!(v.flip(), Ok(vec![43, 101, 100, 2, 43, 10001]));
}

#[test]
fn flip_vec_result_first_failure_wins() {
    let v: Vec<Result<i32, &'static str>> = vec![Err("heatenings"), Ok(2), Err("other")];
    assert_eq!(v.flip(), Err("heatenings"));
}

#[test]
fn flip_vec_result_failure_after_successes() {
    let v: Vec<Result<i32, &'static str>> = vec![Ok(1), Ok(2), Err("third"), Ok(4), Err("fifth")];
    assert_eq!(v.flip(), Err("third"));
}

#[test]
fn flip_vec_result_failure_in_last_place() {
    let v: Vec<Result<i32, &'static str>> = vec![Ok(1), Ok(2), Err("last")];
    assert_eq!(v.flip(), Err("last"));
}

#[test]
fn flip_vec_result_empty() {
    let v: Vec<Result<i32, &'static str>> = Vec::new();
    assert_eq!(v.flip(), Ok(Vec::new()));
}

#[test]
fn flip_vec_result_single() {
    let ok: Vec<Result<i32, &'static str>> = vec![Ok(9)];
    assert_eq!(ok.flip(), Ok(vec![9]));
    let err: Vec<Result<i32, &'static str>> = vec![Err("only")];
    assert_eq!(err.flip(), Err("only"));
}

#[test]
fn flip_vec_option_all_present() {
    let v: Vec<Option<i32>> = vec![Some(1), Some(2)];
    assert_eq!(v.flip(), Some(vec![1, 2]));
}

#[test]
fn flip_vec_option_missing_first() {
    let v: Vec<Option<i32>> = vec![None, Some(2)];
    assert_eq!(v.flip(), None);
}

#[test]
fn flip_vec_option_missing_in_the_middle() {
    let v: Vec<Option<i32>> = vec![Some(1), None, Some(3)];
    assert_eq!(v.flip(), None);
}

#[test]
fn flip_vec_option_missing_last() {
    let v: Vec<Option<i32>> = vec![Some(1), Some(2), None];
    assert_eq!(v.flip(), None);
}

#[test]
fn flip_vec_option_empty() {
    let v: Vec<Option<i32>> = Vec::new();
    assert_eq!(v.flip(), Some(Vec::new()));
}

#[test]
fn flip_moves_values_that_cannot_be_copied() {
    let v: Vec<Result<String, String>> = vec![Ok(String::from("a")), Ok(String::from("b"))];
    assert_eq!(v.flip(), Ok(vec![String::from("a"), String::from("b")]));
    let o: Vec<Option<String>> = vec![Some(String::from("a")), Some(String::from("b"))];
    assert_eq!(o.flip(), Some(vec![String::from("a"), String::from("b")]));
}
