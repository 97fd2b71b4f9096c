use latency_sim::startup::{banner_msg, limit_msg, open_file_limit, soft_limit};

#[test]
fn small_limits_get_no_comma() {
    assert_eq!(limit_msg(Ok(0)), "0");
    assert_eq!(limit_msg(Ok(7)), "7");
    assert_eq!(limit_msg(Ok(256)), "256");
    assert_eq!(limit_msg(Ok(999)), "999");
}

#[test]
fn limits_are_grouped_by_three_from_the_right() {
    assert_eq!(limit_msg(Ok(1000)), "1,000");
    assert_eq!(limit_msg(Ok(1024)), "1,024");
    assert_eq!(limit_msg(Ok(12345)), "12,345");
    assert_eq!(limit_msg(Ok(65536)), "65,536");
    assert_eq!(limit_msg(Ok(100000)), "100,000");
    assert_eq!(limit_msg(Ok(1000000)), "1,000,000");
    assert_eq!(limit_msg(Ok(1048576)), "1,048,576");
    assert_eq!(limit_msg(Ok(1000001)), "1,000,001");
    assert_eq!(limit_msg(Ok(1002003004)), "1,002,003,004");
    assert_eq!(limit_msg(Ok(u64::MAX)), "18,446,744,073,709,551,615");
}

#[test]
fn unknown_limit_is_called_unknown() {
    assert_eq!(limit_msg(Err("no such thing".to_string())), "unknown");
    assert_eq!(limit_msg(Err(String::new())), "unknown");
}

#[test]
fn banner_holds_port_and_limit() {
    assert_eq!(banner_msg(3000, Ok(1024)), "Listening on port 3000, file limit 1,024 ...");
    assert_eq!(banner_msg(4000, Ok(500)), "Listening on port 4000, file limit 500 ...");
    assert_eq!(
        banner_msg(65535, Ok(1048576)),
        "Listening on port 65535, file limit 1,048,576 ..."
    );
    assert_eq!(
        banner_msg(3000, Err("not supported".to_string())),
        "Listening on port 3000, file limit unknown ..."
    );
}

#[test]
fn soft_limit_is_the_first_of_the_pair() {
    assert_eq!(soft_limit(Ok((1024, 4096))), Ok(1024));
    assert_eq!(soft_limit(Ok((0, u64::MAX))), Ok(0));
    assert_eq!(soft_limit(Ok((u64::MAX, 5))), Ok(u64::MAX));
}

#[test]
fn failed_query_gives_the_error_as_text() {
    let error = std::io::Error::new(std::io::ErrorKind::Other, "unsupported resource");
    assert_eq!(soft_limit(Err(error)), Err("unsupported resource".to_string()));
}

#[test]
fn open_file_limit_agrees_with_the_system() {
    let expected = rlimit::getrlimit(rlimit::Resource::NOFILE)
        .map(|pair| pair.0)
        .map_err(|e| e.to_string());
    assert_eq!(open_file_limit(), expected);
}

#[test]
fn failed_query_with_a_system_error_gives_its_text() {
    let error = std::io::Error::from_raw_os_error(22);
    let expected = std::io::Error::from_raw_os_error(22).to_string();
    assert_eq!(soft_limit(Err(error)), Err(expected));
}

#[test]
fn banner_with_the_real_limit_is_well_formed() {
    let banner = banner_msg(3000, open_file_limit());
    assert!(banner.starts_with("Listening on port 3000, file limit "));
    assert!(banner.ends_with(" ..."));
}
