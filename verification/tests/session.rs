use mcpg_plugin_backend_ftp::ftp::FtpConn;
use mcpg_plugin_backend_ftp::session::{
    address, after_step, finish_list, finish_put, first_step, list_argument, Next, Step,
};

fn conn(tls: bool) -> FtpConn {
    FtpConn {
        host: "ftp.example.com".to_owned(),
        port: 2121,
        user: "u".to_owned(),
        password: "p".to_owned(),
        tls,
    }
}

fn steps(tls: bool, listing: bool) -> Vec<Step> {
    let mut taken = vec![first_step()];
    loop {
        match after_step(&conn(tls), listing, *taken.last().unwrap(), Ok(())).unwrap() {
            Next::Perform(step) => taken.push(step),
            Next::Transfer => return taken,
        }
    }
}

#[test]
fn tls_comes_before_login() {
    assert_eq!(steps(true, true), vec![Step::Connect, Step::Secure, Step::Login]);
    assert_eq!(steps(false, true), vec![Step::Connect, Step::Login]);
    assert_eq!(
        steps(true, false),
        vec![Step::Connect, Step::Secure, Step::Login, Step::Binary]
    );
    assert_eq!(steps(false, false), vec![Step::Connect, Step::Login, Step::Binary]);
}

#[test]
fn failed_step_ends_the_session() {
    for (step, message) in [
        (Step::Connect, "FTP connect failed: e"),
        (Step::Secure, "FTPS AUTH TLS failed: e"),
        (Step::Login, "FTP auth failed: e"),
        (Step::Binary, "FTP type binary failed: e"),
    ] {
        assert_eq!(
            after_step(&conn(true), true, step, Err("e".to_owned())).unwrap_err(),
            message
        );
    }
}

#[test]
fn address_and_list_argument() {
    assert_eq!(address(&conn(true)), "ftp.example.com:2121");
    assert_eq!(list_argument("."), None);
    assert_eq!(list_argument("./"), Some("./"));
    assert_eq!(list_argument(""), Some(""));
}

#[test]
fn transfers_come_to_their_result() {
    let entries = finish_list("/d", Ok(vec!["x".to_owned()])).unwrap();
    assert_eq!(entries.len(), 1);
    assert_eq!(entries[0].str_at("name"), Some("x"));
    assert_eq!(
        finish_list("/d", Err("e".to_owned())).unwrap_err(),
        "FTP list '/d' failed: e"
    );
    assert_eq!(finish_put("/f", 9, Ok(())).unwrap(), 9);
    assert_eq!(
        finish_put("/f", 9, Err("e".to_owned())).unwrap_err(),
        "FTP put '/f' failed: e"
    );
}
