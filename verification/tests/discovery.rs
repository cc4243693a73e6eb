use denon_control::avahi::{browse_line_name, denon_names, pick_receiver};
use denon_control::avahi_error;
use denon_control::timing::duration_millis;

#[test]
fn a_resolved_receiver_line_yields_its_hostname() {
    let line = "=;eth0;IPv4;DENON-AVR-1912;_raop._tcp;local;denon.local;192.168.0.2;1234;txt";
    assert_eq!(browse_line_name(line), Some("denon.local".to_string()));
}

#[test]
fn other_lines_yield_nothing() {
    // not a resolved entry
    assert_eq!(
        browse_line_name("+;eth0;IPv4;DENON-AVR;_raop._tcp;local"),
        None
    );
    // no receiver marker
    assert_eq!(
        browse_line_name("=;eth0;IPv4;SomeSpeaker;_raop._tcp;local;x.local;1;2;t"),
        None
    );
    // too few fields
    assert_eq!(browse_line_name("=;DENON"), None);
    assert_eq!(browse_line_name(""), None);
}

#[test]
fn the_first_receiver_of_the_output_wins() {
    let output = "+;eth0;IPv4;noise;_raop._tcp;local\n\
                  =;eth0;IPv4;DENON-AVR;_raop._tcp;local;first.local;1;2;t\r\n\
                  =;eth0;IPv4;DENON-AVR;_raop._tcp;local;second.local;1;2;t\n";
    assert_eq!(
        denon_names(output),
        vec!["first.local".to_string(), "second.local".to_string()]
    );
    assert_eq!(pick_receiver(output).unwrap(), "first.local");
}

#[test]
fn no_receiver_in_the_output_means_no_hosts_found() {
    let r = pick_receiver("+;eth0;IPv4;noise;_raop._tcp;local\n");
    assert!(matches!(r, Err(avahi_error::Error::NoHostsFound)));
    let r = pick_receiver("");
    assert!(matches!(r, Err(avahi_error::Error::NoHostsFound)));
}

#[test]
fn durations_turn_into_whole_milliseconds() {
    assert_eq!(duration_millis(0, 0), 0);
    assert_eq!(duration_millis(1, 500_000_000), 1500);
    assert_eq!(duration_millis(2, 999_999_999), 2999);
    assert_eq!(duration_millis(u64::MAX, 999_999_999), u64::MAX);
}

#[test]
fn elapsed_time_is_measurable() {
    let timer = std::time::Instant::now();
    let millis = denon_control::timing::time_in_millis(&timer);
    assert!(millis < 600_000);
}
