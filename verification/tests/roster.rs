use tcp_chat::roster::{Client, Roster};

fn client(id: i32, writer: char) -> Client<char> {
    Client { id, addr: format!("10.0.0.1:{}", id), writer }
}

fn writers(roster: &Roster<char>) -> String {
    (0..roster.len()).map(|i| roster.client(i).writer).collect()
}

#[test]
fn clients_stay_in_order() {
    let mut roster = Roster::new();
    assert_eq!(roster.len(), 0);
    assert_eq!(roster.join(client(1, 'a')), 1);
    assert_eq!(roster.join(client(2, 'b')), 2);
    assert_eq!(roster.join(client(3, 'c')), 3);
    assert_eq!(writers(&roster), "abc");
    assert_eq!(roster.client(1).id, 2);
    assert_eq!(roster.client(1).addr, "10.0.0.1:2");
    assert_eq!(roster.leave(2), 2);
    assert_eq!(writers(&roster), "ac");
    assert_eq!(roster.leave(9), 2);
    assert_eq!(writers(&roster), "ac");
    assert_eq!(roster.leave(1), 1);
    assert_eq!(roster.leave(3), 0);
    assert_eq!(roster.leave(3), 0);
}

#[test]
fn all_with_one_id_leave_together() {
    let mut roster = Roster::new();
    for (id, writer) in [(5, 'a'), (5, 'b'), (6, 'c'), (5, 'd'), (7, 'e'), (5, 'f')] {
        roster.join(client(id, writer));
    }
    assert_eq!(roster.leave(5), 2);
    assert_eq!(writers(&roster), "ce");
}

#[test]
fn everyone_else_is_told_once_in_order() {
    let mut roster = Roster::new();
    for (id, writer) in [(5, 'a'), (6, 'b'), (5, 'c'), (7, 'd')] {
        roster.join(client(id, writer));
    }
    assert_eq!(roster.told_places(Some(5)), vec![1, 3]);
    assert_eq!(roster.told_places(Some(6)), vec![0, 2, 3]);
    assert_eq!(roster.told_places(Some(9)), vec![0, 1, 2, 3]);
    assert_eq!(roster.told_places(None), vec![0, 1, 2, 3]);
    let empty: Roster<char> = Roster::new();
    assert_eq!(empty.told_places(None), Vec::<usize>::new());
}

#[test]
fn leaver_hears_nothing_until_its_id_joins_again() {
    let mut roster = Roster::new();
    roster.join(client(5, 'a'));
    roster.join(client(6, 'b'));
    roster.leave(5);
    roster.join(client(7, 'c'));
    roster.leave(6);
    for place in roster.told_places(None) {
        assert!(roster.client(place).id != 5);
    }
    roster.join(client(5, 'd'));
    assert_eq!(roster.told_places(Some(7)), vec![1]);
    assert_eq!(roster.client(1).writer, 'd');
}
