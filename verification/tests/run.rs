use gitxel_art::run::{follow_up, FollowUp};

#[test]
fn follow_up_after_generation() {
    assert_eq!(follow_up(5, true, false, true), FollowUp::Push);
    assert_eq!(follow_up(5, true, false, false), FollowUp::WarnNoRemote);
    assert_eq!(follow_up(5, false, false, true), FollowUp::SuggestPush);
    assert_eq!(follow_up(5, false, false, false), FollowUp::SuggestLinkRemote);
    assert_eq!(follow_up(0, true, false, true), FollowUp::Nothing);
    assert_eq!(follow_up(5, true, true, true), FollowUp::Nothing);
    assert_eq!(follow_up(5, false, true, false), FollowUp::Nothing);
}
