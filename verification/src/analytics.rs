//! Audit of trading logs by a language model: the request and the reply.
use crate::json::{json_of, read_json, Json};
use crate::llm::{first_text, forecast_url, model_url};
use crate::text::{fill1, filled};
use vstd::prelude::*;

verus! {

/// The model that audits the logs.
pub const AUDIT_MODEL: &'static str = "gemini-2.5-pro";

/// The instruction to the auditing model.
pub const AUDIT_INSTRUCTION: &'static str = "Ты — ведущий квантовый аналитик и эксперт по HFT-стратегиям на крипторынке. Твоя задача — провести глубокий математический аудит логов робота GEM_RUST на 15-минутных экспресс-рынках Polymarket. Проанализируй предоставленный тебе CSV-массив данных. Выдели скрытые паттерны убытков и корреляции по следующим направлениям:\n1. ЭФФЕКТИВНОСТЬ ДИАПАЗОНОВ ATR: Определи точные границы минутной волатильности Биткоина (btc_atr), при которых стратегия Dynamic Grid показывает максимальную доходность, а при каких — систематически сливает из-за затяжного флэта.\n2. АУДИТ DYNAMIC BUY: Оцени эффективность модуля докупок слабой стороны по цене 0.15-0.16. Окупает ли себя повышенный объем при последующем отскоке Биткоина, или бот просто увеличивает убыток по временному стопу?\n3. АНАЛИЗ TIME-DECAY И CROSSOVER: Проверь точки фиксации слабой стороны на пересечениях линии старта. На каком проценте времени раунда (time_pct) спред и распад стоимости контракта делают выход невыгодным?\n4. КАЛИБРОВКА СЕТКИ: Предложи математически обоснованные изменения шагов фиксации сильной стороны (текущие шаги: [0.58, 0.66, 0.75]). Стоит ли сузить или расширить шаги сетки?\nВыдавай отчет строго в профессиональном стиле, с приведением цифр, процентов и готовых рекомендаций для внесения в файл конфигурации (config.toml) робота.";

pub open spec fn spec_audit_url(project_id: Seq<char>) -> Seq<char> {
    model_url(project_id, AUDIT_MODEL@)
}

/// The endpoint of the auditing model in a project.
pub fn audit_url(project_id: &str) -> (r: String)
    ensures
        r@ == spec_audit_url(project_id@),
{
    forecast_url(project_id, AUDIT_MODEL)
}

/// The project that a service account's key belongs to.
pub fn audit_project(key: &Json) -> (r: Result<String, String>)
    ensures
        match (r, key.str_at("project_id"@)) {
            (Ok(t), Some(s)) => t@ == s,
            (Err(e), None) => e@
                == "В предоставленном сервисном JSON-ключе отсутствует обязательное поле 'project_id'"@,
            _ => false,
        },
{
    match key.get_str("project_id") {
        Some(s) => Ok(s.to_owned()),
        None => Err(
            "В предоставленном сервисном JSON-ключе отсутствует обязательное поле 'project_id'".to_owned(),
        ),
    }
}

/// The project that a key file's text belongs to; what is said of a text that is no JSON
/// comes back as it is.
pub fn audit_project_text(text: &str) -> (r: Result<String, String>)
    ensures
        match (r, json_of(text@)) {
            (Ok(t), Ok(key)) => key.str_at("project_id"@) == Some(t@),
            (Err(e), Ok(key)) => key.str_at("project_id"@) is None && e@
                == "В предоставленном сервисном JSON-ключе отсутствует обязательное поле 'project_id'"@,
            (Err(e), Err(fault)) => e@ == fault,
            (Ok(_), Err(_)) => false,
        },
{
    match read_json(text) {
        Ok(key) => audit_project(&key),
        Err(e) => Err(e),
    }
}

/// The request's text: an introduction and the logs.
pub fn audit_prompt(logs_csv: &str) -> (r: String)
    ensures
        r@ == filled(
            "Вот файлы логов торговых сессий в формате CSV для анализа:\n\n{}"@,
            seq![logs_csv@],
        ),
{
    fill1("Вот файлы логов торговых сессий в формате CSV для анализа:\n\n{}", logs_csv)
}

/// What a refused request is answered.
pub fn audit_refused(err_text: &str) -> (r: String)
    ensures
        r@ == filled("Исключение Vertex AI API: {}"@, seq![err_text@]),
{
    fill1("Исключение Vertex AI API: {}", err_text)
}

/// The report: the first text of the first candidate.
pub fn audit_report(candidates: &Vec<Vec<String>>) -> (r: Result<String, String>)
    ensures
        match (r, first_text(candidates@)) {
            (Ok(t), Some(s)) => t@ == s,
            (Err(e), None) => e@
                == "Не удалось извлечь текстовый блок аналитики из ответа Vertex AI. Структура JSON изменена."@,
            _ => false,
        },
{
    if candidates.len() > 0 && candidates[0].len() > 0 {
        Ok(candidates[0][0].as_str().to_owned())
    } else {
        Err(
            "Не удалось извлечь текстовый блок аналитики из ответа Vertex AI. Структура JSON изменена.".to_owned(),
        )
    }
}

} // verus!
