//! Localised labels of the tray menu.

use vstd::prelude::*;
use crate::text::{chars_of, has_prefix, lower, lowercase_chars, same_chars, starts_with_chars};

verus! {

/// The languages the tray menu can be shown in.
#[derive(Debug, Clone, Copy, PartialEq, Eq, Structural)]
pub enum TrayLanguage {
    TraditionalChinese,
    SimplifiedChinese,
    Japanese,
    Korean,
    German,
    French,
    Spanish,
    Portuguese,
    Russian,
    English,
}

/// The language of the tray menu for a locale tag, matched case-blind on
/// its prefix; English when none matches.
pub open spec fn language_of(locale: Seq<char>) -> TrayLanguage {
    let lang = lower(locale);
    if has_prefix(lang, "zh-tw"@) || lang == "zh-hant"@ {
        TrayLanguage::TraditionalChinese
    } else if has_prefix(lang, "zh"@) {
        TrayLanguage::SimplifiedChinese
    } else if has_prefix(lang, "ja"@) {
        TrayLanguage::Japanese
    } else if has_prefix(lang, "ko"@) {
        TrayLanguage::Korean
    } else if has_prefix(lang, "de"@) {
        TrayLanguage::German
    } else if has_prefix(lang, "fr"@) {
        TrayLanguage::French
    } else if has_prefix(lang, "es"@) {
        TrayLanguage::Spanish
    } else if has_prefix(lang, "pt"@) {
        TrayLanguage::Portuguese
    } else if has_prefix(lang, "ru"@) {
        TrayLanguage::Russian
    } else {
        TrayLanguage::English
    }
}

/// The six menu labels of a language: show window, start recording,
/// pause / resume, stop recording, screenshot, quit.
pub open spec fn label_table(lang: TrayLanguage) -> Seq<Seq<char>> {
    match lang {
        TrayLanguage::TraditionalChinese => seq![
            "顯示 Capto"@, "開始錄製"@, "暫停 / 繼續"@, "停止錄製"@, "截圖"@, "結束"@,
        ],
        TrayLanguage::SimplifiedChinese => seq![
            "显示 Capto"@, "开始录制"@, "暂停 / 继续"@, "停止录制"@, "截图"@, "退出"@,
        ],
        TrayLanguage::Japanese => seq![
            "Capto を表示"@, "録画開始"@, "一時停止 / 再開"@, "録画停止"@, "スクリーンショット"@,
            "終了"@,
        ],
        TrayLanguage::Korean => seq![
            "Capto 표시"@, "녹화 시작"@, "일시정지 / 재개"@, "녹화 중지"@, "스크린샷"@, "종료"@,
        ],
        TrayLanguage::German => seq![
            "Capto anzeigen"@, "Aufnahme starten"@, "Pause / Weiter"@, "Aufnahme stoppen"@,
            "Screenshot"@, "Beenden"@,
        ],
        TrayLanguage::French => seq![
            "Afficher Capto"@, "Démarrer l’enregistrement"@, "Pause / Reprendre"@,
            "Arrêter l’enregistrement"@, "Capture d’écran"@, "Quitter"@,
        ],
        TrayLanguage::Spanish => seq![
            "Mostrar Capto"@, "Iniciar grabación"@, "Pausa / Reanudar"@, "Detener grabación"@,
            "Captura de pantalla"@, "Salir"@,
        ],
        TrayLanguage::Portuguese => seq![
            "Mostrar Capto"@, "Iniciar gravação"@, "Pausar / Retomar"@, "Parar gravação"@,
            "Captura de tela"@, "Sair"@,
        ],
        TrayLanguage::Russian => seq![
            "Показать Capto"@, "Начать запись"@, "Пауза / Продолжить"@, "Остановить запись"@,
            "Снимок экрана"@, "Выход"@,
        ],
        TrayLanguage::English => seq![
            "Show Capto"@, "Start Recording"@, "Pause / Resume"@, "Stop Recording"@,
            "Screenshot"@, "Quit"@,
        ],
    }
}

/// The texts of a label array.
pub open spec fn label_texts(labels: [&'static str; 6]) -> Seq<Seq<char>> {
    seq![labels[0]@, labels[1]@, labels[2]@, labels[3]@, labels[4]@, labels[5]@]
}

fn lang_starts_with(lang: &Vec<char>, prefix: &str) -> (r: bool)
    ensures
        r == has_prefix(lang@, prefix@),
{
    let p = chars_of(prefix);
    starts_with_chars(lang.as_slice(), p.as_slice())
}

/// The tray menu's language for `locale`.
pub fn tray_language(locale: &str) -> (r: TrayLanguage)
    ensures
        r == language_of(locale@),
{
    let raw = chars_of(locale);
    let lang = lowercase_chars(raw.as_slice());
    let hant = chars_of("zh-hant");
    if lang_starts_with(&lang, "zh-tw") || same_chars(lang.as_slice(), hant.as_slice()) {
        TrayLanguage::TraditionalChinese
    } else if lang_starts_with(&lang, "zh") {
        TrayLanguage::SimplifiedChinese
    } else if lang_starts_with(&lang, "ja") {
        TrayLanguage::Japanese
    } else if lang_starts_with(&lang, "ko") {
        TrayLanguage::Korean
    } else if lang_starts_with(&lang, "de") {
        TrayLanguage::German
    } else if lang_starts_with(&lang, "fr") {
        TrayLanguage::French
    } else if lang_starts_with(&lang, "es") {
        TrayLanguage::Spanish
    } else if lang_starts_with(&lang, "pt") {
        TrayLanguage::Portuguese
    } else if lang_starts_with(&lang, "ru") {
        TrayLanguage::Russian
    } else {
        TrayLanguage::English
    }
}

/// The tray menu labels for `locale`.
pub fn tray_labels(locale: &str) -> (r: [&'static str; 6])
    ensures
        label_texts(r) == label_table(language_of(locale@)),
{
    match tray_language(locale) {
        TrayLanguage::TraditionalChinese => [
            "顯示 Capto", "開始錄製", "暫停 / 繼續", "停止錄製", "截圖", "結束",
        ],
        TrayLanguage::SimplifiedChinese => [
            "显示 Capto", "开始录制", "暂停 / 继续", "停止录制", "截图", "退出",
        ],
        TrayLanguage::Japanese => [
            "Capto を表示", "録画開始", "一時停止 / 再開", "録画停止", "スクリーンショット", "終了",
        ],
        TrayLanguage::Korean => [
            "Capto 표시", "녹화 시작", "일시정지 / 재개", "녹화 중지", "스크린샷", "종료",
        ],
        TrayLanguage::German => [
            "Capto anzeigen", "Aufnahme starten", "Pause / Weiter", "Aufnahme stoppen",
            "Screenshot", "Beenden",
        ],
        TrayLanguage::French => [
            "Afficher Capto", "Démarrer l’enregistrement", "Pause / Reprendre",
            "Arrêter l’enregistrement", "Capture d’écran", "Quitter",
        ],
        TrayLanguage::Spanish => [
            "Mostrar Capto", "Iniciar grabación", "Pausa / Reanudar", "Detener grabación",
            "Captura de pantalla", "Salir",
        ],
        TrayLanguage::Portuguese => [
            "Mostrar Capto", "Iniciar gravação", "Pausar / Retomar", "Parar gravação",
            "Captura de tela", "Sair",
        ],
        TrayLanguage::Russian => [
            "Показать Capto", "Начать запись", "Пауза / Продолжить", "Остановить запись",
            "Снимок экрана", "Выход",
        ],
        TrayLanguage::English => [
            "Show Capto", "Start Recording", "Pause / Resume", "Stop Recording", "Screenshot",
            "Quit",
        ],
    }
}

} // verus!
