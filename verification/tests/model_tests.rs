use ollama_studio::display::{
    active_models_label, can_close, counter_text, is_last_reply, prompt_breakdown, renders_plain,
    shows_reply_stats, total_tokens,
};
use ollama_studio::chat::Message;
use ollama_studio::models::{
    contains_name, default_model_names, fallback_model, model_names_or_fallback,
    running_models_or_empty, RunningModel,
};
use ollama_studio::settings::{default_temp, default_top_p, AppSettings, SelectedFont};
use ollama_studio::tabs::{default_tabs, find_tab, max_tab_id, remove_tab, tabs_or_default};
use ollama_studio::theme::{classic_hover_fill, hover_fill, ThemeTokens};

#[test]
fn offered_models() {
    let fallback = vec!["llama3.2-vision:latest".to_string(), "llama3.2:1b".to_string()];
    assert_eq!(default_model_names(), fallback);
    assert_eq!(model_names_or_fallback(None), fallback);
    assert_eq!(model_names_or_fallback(Some(vec![])), fallback);
    assert_eq!(model_names_or_fallback(Some(vec!["a".to_string()])), vec!["a".to_string()]);
    assert!(contains_name(&fallback, &"llama3.2:1b".to_string()));
    assert!(!contains_name(&fallback, &"x".to_string()));
    assert_eq!(fallback_model(&vec![]), "llama3.2:1b");
    assert_eq!(fallback_model(&vec!["q".to_string()]), "q");
    assert!(running_models_or_empty(None).is_empty());
    let r = running_models_or_empty(Some(vec![RunningModel { name: "a".to_string(), size: 1, size_vram: 1 }]));
    assert_eq!(r[0].name, "a");
}

#[test]
fn default_settings() {
    let s = AppSettings::default();
    assert_eq!(s.ollama_url, "http://127.0.0.1:11434");
    assert!(s.dark_mode);
    assert_eq!(f32::from_bits(s.zoom_factor_bits), 1.0);
    assert_eq!(s.selected_font, SelectedFont::Proportional);
    assert_eq!(f32::from_bits(s.base_font_size_bits), 14.0);
    assert!(s.default_system_prompt.is_empty());
    assert_eq!(f32::from_bits(s.default_temperature_bits), 0.7);
    assert_eq!(f32::from_bits(s.default_top_p_bits), 0.9);
    assert_eq!(f32::from_bits(default_temp()), 0.7);
    assert_eq!(f32::from_bits(default_top_p()), 0.9);
}

#[test]
fn tab_lists() {
    let tabs = default_tabs();
    assert_eq!(tabs[0].title, "New Chat");
    assert!(tabs[0].messages.is_empty());
    assert_eq!(tabs_or_default(None).len(), 1);
    assert_eq!(tabs_or_default(Some(vec![])).len(), 1);
    let mut many = default_tabs();
    many.extend(default_tabs());
    many[1].id = 5;
    many.extend(default_tabs());
    many[2].id = 5;
    assert_eq!(find_tab(&many, 5), Some(1));
    assert_eq!(find_tab(&many, 6), None);
    assert_eq!(max_tab_id(&many), 5);
    assert_eq!(max_tab_id(&vec![]), 0);
    let kept = remove_tab(many, 5);
    assert_eq!(kept.len(), 1);
    assert_eq!(kept[0].id, 0);
}

#[test]
fn palettes() {
    let d = ThemeTokens::dark();
    assert_eq!((d.accent_primary.r, d.accent_primary.g, d.accent_primary.b, d.accent_primary.a), (234, 88, 12, 255));
    assert_eq!(d.assistant_bubble_bg.a, 0);
    let l = ThemeTokens::light();
    assert_eq!((l.text_primary.r, l.text_primary.g, l.text_primary.b), (15, 23, 42));
    assert_eq!(ThemeTokens::for_mode(true), d);
    assert_eq!(ThemeTokens::for_mode(false), l);
    assert_eq!(ThemeTokens::classic_dark().user_bubble_bg.b, 229);
    assert_eq!(ThemeTokens::classic_light().bg_base.r, 250);
    assert_eq!(hover_fill(true).r, 45);
    assert_eq!(hover_fill(false).g, 235);
    assert_eq!(classic_hover_fill(true).b, 56);
    assert_eq!(classic_hover_fill(false).r, 238);
}

#[test]
fn display_rules() {
    assert!(is_last_reply(false, 2, 3));
    assert!(!is_last_reply(true, 2, 3));
    assert!(!is_last_reply(false, 1, 3));
    assert!(!is_last_reply(false, 0, 0));
    assert!(renders_plain(true, true));
    assert!(!renders_plain(false, true));
    let mut m = Message::assistant("x".to_string());
    assert!(!shows_reply_stats(&m));
    m.completion_tokens = Some(3);
    m.eval_duration_secs_bits = Some(1.0f64.to_bits());
    assert!(shows_reply_stats(&m));
    assert_eq!(prompt_breakdown(Some(12), 34), " (Prompt: 12 | Response: 34)");
    assert_eq!(prompt_breakdown(None, 34), "");
    assert_eq!(active_models_label(2), "2 Active");
    assert_eq!(counter_text(1234), "1234");
    assert_eq!(total_tokens(5, 7), 12);
    assert!(!can_close(0));
    assert!(!can_close(1));
    assert!(can_close(2));
}
