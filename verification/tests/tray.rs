use capto::tray::{tray_labels, tray_language, TrayLanguage};

#[test]
fn locales_pick_their_labels() {
    assert_eq!(tray_labels("en-US")[0], "Show Capto");
    assert_eq!(tray_labels("zh-TW")[1], "開始錄製");
    assert_eq!(tray_labels("zh-Hant")[5], "結束");
    assert_eq!(tray_labels("zh-CN")[5], "退出");
    assert_eq!(tray_labels("ja")[4], "スクリーンショット");
    assert_eq!(tray_labels("DE-de")[5], "Beenden");
    assert_eq!(tray_labels("xx")[3], "Stop Recording");
    assert_eq!(tray_language("zh-hant-HK"), TrayLanguage::SimplifiedChinese);
    assert_eq!(tray_language("pt-BR"), TrayLanguage::Portuguese);
    assert_eq!(tray_language(""), TrayLanguage::English);
}
