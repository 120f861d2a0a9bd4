use zooming_kittens::process::{parse_i32_exec, socket_name_pid, stat_step, AncestryWalk, StatStep, WalkAction};

fn parse(t: &[u8]) -> Option<i32> {
    parse_i32_exec(t, 0, t.len())
}

#[test]
fn integers_read_like_std() {
    for text in ["0", "42", "+7", "-13", "2147483647", "-2147483648", "007"] {
        assert_eq!(parse(text.as_bytes()), text.parse::<i32>().ok(), "{}", text);
    }
    for text in ["", "-", "+", "2147483648", "-2147483649", "12a", " 1", "99999999999999999999"] {
        assert_eq!(parse(text.as_bytes()), None, "{}", text);
    }
}

#[test]
fn stat_lines_name_the_process_and_its_parent() {
    assert_eq!(stat_step(b"1234 (kitty) S 1 1234 1234 0 -1"), StatStep::Found);
    assert_eq!(stat_step(b"4321 (zsh) S 1234 4321 4321 34816"), StatStep::Parent(1234));
    assert_eq!(stat_step(b"  77   ((kitty))   R  5"), StatStep::Found);
    assert_eq!(stat_step(b"12 (bash)"), StatStep::Stop);
    assert_eq!(stat_step(b"12 (bash) S x"), StatStep::Stop);
    assert_eq!(stat_step(b""), StatStep::Stop);
}

#[test]
fn walk_climbs_to_the_terminal() {
    let mut walk = AncestryWalk::new(4321);
    assert_eq!(walk.next_action(), WalkAction::ReadStat(4321));
    walk.on_stat(Some(b"4321 (zsh) S 1234 4321"));
    assert_eq!(walk.next_action(), WalkAction::ReadStat(1234));
    walk.on_stat(Some(b"1234 (kitty) S 1 1234"));
    assert_eq!(walk.next_action(), WalkAction::Found(1234));
}

#[test]
fn walk_gives_up_after_twenty_reads() {
    let mut walk = AncestryWalk::new(100);
    let mut reads = 0;
    while let WalkAction::ReadStat(pid) = walk.next_action() {
        reads += 1;
        let line = format!("{} (sh) S {}", pid, pid + 1);
        walk.on_stat(Some(line.as_bytes()));
    }
    assert_eq!(reads, 20);
    assert_eq!(walk.next_action(), WalkAction::NotFound);
}

#[test]
fn walk_stops_on_unreadable_status() {
    let mut walk = AncestryWalk::new(5);
    walk.on_stat(None);
    assert_eq!(walk.next_action(), WalkAction::NotFound);
}

#[test]
fn socket_names_carry_the_pid() {
    assert_eq!(socket_name_pid(b"kitty-1234.sock"), Some(1234));
    assert_eq!(socket_name_pid(b"kitty-.sock"), None);
    assert_eq!(socket_name_pid(b"kitty-12x.sock"), None);
    assert_eq!(socket_name_pid(b"kitty-12.socket"), None);
    assert_eq!(socket_name_pid(b"foot-12.sock"), None);
}
