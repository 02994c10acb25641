//! What the GQY tool bridge tells the `pi` agent base about GQY's own tools:
//! which ones it offers, how long a call may run, and the guidance injected into
//! the system prompt so that the model picks a `gqy_*` tool instead of
//! improvising with shell commands. The HTTP service itself is run by the caller.
use vstd::prelude::*;
use crate::provider::strings_view;
use crate::text::{chars_of, extend_str, str_is, string_of};

verus! {

/// The GQY tools the bridge offers: memory, memes, the knowledge base, alarms,
/// divination, lookups, utilities, local vision, sub-agents and agent teams.
pub open spec fn exposed_tool(name: Seq<char>) -> bool {
    name == "remember_fact"@
        || name == "recall_memories"@
        || name == "recall_past_events"@
        || name == "search_evicted_context"@
        || name == "log_mood"@
        || name == "recall_mood"@
        || name == "search_meme"@
        || name == "show_meme"@
        || name == "add_meme"@
        || name == "delete_meme"@
        || name == "update_meme"@
        || name == "search_knowledge_base"@
        || name == "search_knowledge_base_by_name"@
        || name == "read_knowledge_base_file"@
        || name == "upload_text_to_knowledge_base"@
        || name == "edit_knowledge_base_file"@
        || name == "remove_knowledge_base_file"@
        || name == "set_alarm"@
        || name == "list_alarms"@
        || name == "cancel_alarm"@
        || name == "pomodoro"@
        || name == "draw_zhouyi_hexagram"@
        || name == "draw_tarot_card"@
        || name == "draw_fortune_lot"@
        || name == "roll_dice"@
        || name == "get_weather"@
        || name == "get_exchange_rate"@
        || name == "online_man_search"@
        || name == "online_man_get_page"@
        || name == "query_moegirl"@
        || name == "query_deepseek_status"@
        || name == "protondb_query"@
        || name == "check_os_info"@
        || name == "calculate_hash"@
        || name == "decode_encoded_text"@
        || name == "scientific_calculator"@
        || name == "read_clipboard"@
        || name == "web_fetch"@
        || name == "speak"@
        || name == "listen_audio"@
        || name == "analyze_image_local"@
        || name == "task"@
        || name == "deep_research"@
        || name == "spawn_agent"@
        || name == "talk_to_agent"@
        || name == "list_agents"@
        || name == "kill_agent"@
}

pub fn is_exposed_tool(name: &str) -> (r: bool)
    ensures
        r == exposed_tool(name@),
{
    let v = chars_of(name);
    let n = v.as_slice();
    str_is(n, "remember_fact")
        || str_is(n, "recall_memories")
        || str_is(n, "recall_past_events")
        || str_is(n, "search_evicted_context")
        || str_is(n, "log_mood")
        || str_is(n, "recall_mood")
        || str_is(n, "search_meme")
        || str_is(n, "show_meme")
        || str_is(n, "add_meme")
        || str_is(n, "delete_meme")
        || str_is(n, "update_meme")
        || str_is(n, "search_knowledge_base")
        || str_is(n, "search_knowledge_base_by_name")
        || str_is(n, "read_knowledge_base_file")
        || str_is(n, "upload_text_to_knowledge_base")
        || str_is(n, "edit_knowledge_base_file")
        || str_is(n, "remove_knowledge_base_file")
        || str_is(n, "set_alarm")
        || str_is(n, "list_alarms")
        || str_is(n, "cancel_alarm")
        || str_is(n, "pomodoro")
        || str_is(n, "draw_zhouyi_hexagram")
        || str_is(n, "draw_tarot_card")
        || str_is(n, "draw_fortune_lot")
        || str_is(n, "roll_dice")
        || str_is(n, "get_weather")
        || str_is(n, "get_exchange_rate")
        || str_is(n, "online_man_search")
        || str_is(n, "online_man_get_page")
        || str_is(n, "query_moegirl")
        || str_is(n, "query_deepseek_status")
        || str_is(n, "protondb_query")
        || str_is(n, "check_os_info")
        || str_is(n, "calculate_hash")
        || str_is(n, "decode_encoded_text")
        || str_is(n, "scientific_calculator")
        || str_is(n, "read_clipboard")
        || str_is(n, "web_fetch")
        || str_is(n, "speak")
        || str_is(n, "listen_audio")
        || str_is(n, "analyze_image_local")
        || str_is(n, "task")
        || str_is(n, "deep_research")
        || str_is(n, "spawn_agent")
        || str_is(n, "talk_to_agent")
        || str_is(n, "list_agents")
        || str_is(n, "kill_agent")
}

/// Seconds a bridged tool call may run: half an hour for the sub-agent
/// pipelines (`task`, `deep_research`), three minutes for the rest.
pub open spec fn tool_timeout_secs(name: Seq<char>) -> u64 {
    if name == "task"@ || name == "deep_research"@ {
        1800
    } else {
        180
    }
}

pub fn tool_timeout(name: &str) -> (r: u64)
    ensures
        r == tool_timeout_secs(name@),
{
    let v = chars_of(name);
    if str_is(v.as_slice(), "task") || str_is(v.as_slice(), "deep_research") {
        1800
    } else {
        180
    }
}

pub open spec fn strs_view(v: Seq<&'static str>) -> Seq<Seq<char>> {
    v.map_values(|s: &'static str| s@)
}

/// When to use a tool: a short title and the rules injected into the prompt.
pub open spec fn guidance_for(name: Seq<char>) -> Option<(Seq<char>, Seq<Seq<char>>)> {
    if name == "remember_fact"@ {
        Some(("记住事实/偏好/知识点"@, seq!["用户说「记住：xxx」或要求你记住某个事实/偏好/方法时，使用 gqy_remember_fact"@, "不要用普通聊天代替记忆写入；需要长期可召回的信息一律走 gqy_remember_fact"@]))
    } else if name == "recall_memories"@ {
        Some(("按关键词召回记忆"@, seq!["用户问「你记得…吗」「回忆一下/想想之前」时，调用 gqy_recall_memories 并附上与内容重叠的关键词"@, "回答涉及跨会话信息时，先用 gqy_recall_memories / gqy_recall_past_events 检索再作答，不要凭空编造"@]))
    } else if name == "recall_past_events"@ {
        Some(("召回过往事件"@, seq!["用户问「我们之前聊过什么/发生过什么」时，使用 gqy_recall_past_events"@]))
    } else if name == "search_evicted_context"@ {
        Some(("检索被压缩的上下文"@, seq!["用户提到很早以前的对话且当前上下文里没有时，使用 gqy_search_evicted_context"@]))
    } else if name == "log_mood"@ || name == "recall_mood"@ {
        Some(("心情记录/回忆"@, seq!["用户表达情绪或询问过去的心情时，使用 gqy_log_mood / gqy_recall_mood"@]))
    } else if name == "search_meme"@ {
        Some(("搜索表情包"@, seq!["用户要求发/找/使用表情包时，使用 gqy_search_meme 搜索表情包库"@, "聊天中气氛合适时也可以主动用 gqy_search_meme 找表情包"@]))
    } else if name == "show_meme"@ {
        Some(("发送/展示表情包"@, seq!["用户要求发/展示某个表情包，或聊天氛围合适时，先用 gqy_search_meme 找到 id，再用 gqy_show_meme 发送（图片会直接展示）"@, "gqy_show_meme 需要 id 参数：从 gqy_search_meme 的结果里取"@]))
    } else if name == "add_meme"@ {
        Some(("把图片加入表情包库"@, seq!["用户提供图片并希望存入表情包库时，使用 gqy_add_meme"@]))
    } else if name == "delete_meme"@ || name == "update_meme"@ {
        Some(("管理表情包库"@, seq!["用户要求删除/更新表情包时，使用 gqy_delete_meme / gqy_update_meme"@]))
    } else if name == "search_knowledge_base"@ {
        Some(("检索知识库"@, seq!["回答涉及 macOS/Homebrew/系统操作等实操问题时，优先用 gqy_search_knowledge_base 检索知识库再回答"@, "知识库检索不到再考虑网络搜索或 bash"@]))
    } else if name == "search_knowledge_base_by_name"@ {
        Some(("按名称检索知识库条目"@, seq!["用户给出明确主题/标题时，用 gqy_search_knowledge_base_by_name 查知识库"@]))
    } else if name == "read_knowledge_base_file"@ {
        Some(("读取知识库条目全文"@, seq!["需要知识库条目完整内容时，用 gqy_read_knowledge_base_file"@]))
    } else if name == "upload_text_to_knowledge_base"@ {
        Some(("把内容写入知识库"@, seq!["用户要求把某段内容存入知识库时，用 gqy_upload_text_to_knowledge_base"@]))
    } else if name == "edit_knowledge_base_file"@ || name == "remove_knowledge_base_file"@ {
        Some(("编辑/删除知识库条目"@, seq!["用户要求修改/删除知识库条目时，用 gqy_edit_knowledge_base_file / gqy_remove_knowledge_base_file"@]))
    } else if name == "set_alarm"@ || name == "pomodoro"@ {
        Some(("设置闹钟/番茄钟"@, seq!["用户要求设闹钟、倒计时、定时提醒或番茄钟学习时，使用 gqy_set_alarm / gqy_pomodoro"@, "不要用 bash sleep 模拟闹钟，用 gqy_set_alarm 才能真正到时提醒"@]))
    } else if name == "list_alarms"@ || name == "cancel_alarm"@ {
        Some(("查看/取消闹钟"@, seq!["用户询问闹钟状态或要取消闹钟时，使用 gqy_list_alarms / gqy_cancel_alarm"@]))
    } else if name == "draw_zhouyi_hexagram"@ || name == "draw_tarot_card"@ || name == "draw_fortune_lot"@ || name == "roll_dice"@ {
        Some(("玄学算命/掷骰子"@, seq!["用户要算卦、抽塔罗、求签、看运势或掷骰子时，使用对应的 gqy_draw_* / gqy_roll_dice 工具"@, "不要用 bash 自己生成卦象或随机数代替专业工具"@]))
    } else if name == "get_weather"@ {
        Some(("查询天气"@, seq!["用户查询天气时，使用 gqy_get_weather（不要用 bash 猜）"@]))
    } else if name == "get_exchange_rate"@ {
        Some(("查询汇率"@, seq!["用户查询汇率时，使用 gqy_get_exchange_rate"@]))
    } else if name == "online_man_search"@ || name == "online_man_get_page"@ {
        Some(("查询 man 手册"@, seq!["用户要查 man 手册/命令用法时，使用 gqy_online_man_search / gqy_online_man_get_page"@]))
    } else if name == "query_moegirl"@ {
        Some(("查询萌娘百科"@, seq!["用户查询 ACG/萌娘百科词条时，使用 gqy_query_moegirl"@]))
    } else if name == "calculate_hash"@ || name == "decode_encoded_text"@ {
        Some(("哈希计算/编解码"@, seq!["用户要计算哈希或 base64/hex/url 等编解码时，使用 gqy_calculate_hash / gqy_decode_encoded_text"@]))
    } else if name == "scientific_calculator"@ {
        Some(("科学计算器"@, seq!["需要精确的数学/科学计算时，使用 gqy_scientific_calculator 而不是手算"@]))
    } else if name == "read_clipboard"@ {
        Some(("读取剪贴板"@, seq!["用户询问剪贴板内容或要基于剪贴板操作时，使用 gqy_read_clipboard"@]))
    } else if name == "web_fetch"@ {
        Some(("抓取网页内容"@, seq!["用户要求读取某个网页的内容时，使用 gqy_web_fetch"@]))
    } else if name == "check_os_info"@ {
        Some(("查看系统信息"@, seq!["需要系统/桌面环境信息时，使用 gqy_check_os_info"@]))
    } else if name == "query_deepseek_status"@ {
        Some(("查询 DeepSeek 余额"@, seq!["用户询问 API 余额/额度时，使用 gqy_query_deepseek_status"@]))
    } else if name == "protondb_query"@ {
        Some(("查询 ProtonDB 游戏兼容性"@, seq!["用户询问 Linux 游戏兼容性/ProtonDB 时，使用 gqy_protondb_query"@]))
    } else if name == "speak"@ {
        Some(("文字转语音"@, seq!["用户要求读出/播放某段文字时，使用 gqy_speak"@]))
    } else if name == "listen_audio"@ {
        Some(("语音转文字"@, seq!["用户要求听一段音频时，使用 gqy_listen_audio"@]))
    } else if name == "spawn_agent"@ {
        Some(("创建命名子代理（agent）"@, seq!["用户要求「建一个某某 agent/角色代理/团队成员」或任务需要多角色协作时，用 gqy_spawn_agent 创建"@, "创建后对每个 agent 用 gqy_talk_to_agent 派活，多个 agent 可同一轮并行派发"@]))
    } else if name == "talk_to_agent"@ {
        Some(("给子代理派活"@, seq!["创建 agent 后，把具体任务用 gqy_talk_to_agent 交给它；多 agent 并行时同一轮多次调用"@, "agent 有独立记忆，可连续对话"@]))
    } else if name == "list_agents"@ || name == "kill_agent"@ {
        Some(("管理子代理"@, seq!["用户询问有哪些 agent 或用完要销毁时，用 gqy_list_agents / gqy_kill_agent"@]))
    } else if name == "task"@ {
        Some(("子任务（子 agent）"@, seq!["用户要求并行调研多个子主题、分步骤执行复杂任务时，使用 gqy_task 拆成子 agent 并行处理"@, "gqy_task 内部会启动独立的子 agent，耗时可能较长，耐心等结果"@]))
    } else if name == "deep_research"@ {
        Some(("深度研究（多阶段报告）"@, seq!["用户要求「深度研究/写研究报告/查证某个命题」时，使用 gqy_deep_research 生成带引用的结构化报告"@, "gqy_deep_research 会分阶段（规划→多路调研→审查→撰写）执行，可能耗时数分钟到十几分钟"@]))
    } else if name == "analyze_image_local"@ {
        Some(("本地离线看图（OCR/分类）"@, seq!["用户提供本地图片路径、要求识别图中文字/物体/验证码/截图内容时，使用 gqy_analyze_image_local（Apple Vision，免费离线，不耗 API 额度）"@, "多模态模型不可用或限流时，用 gqy_analyze_image_local 兜底看图"@]))
    } else {
        None
    }
}

pub fn tool_guidance(name: &str) -> (r: Option<(&'static str, Vec<&'static str>)>)
    ensures
        match r {
            Some((t, h)) => guidance_for(name@) == Some((t@, strs_view(h@))),
            None => guidance_for(name@) is None,
        },
{
    let v = chars_of(name);
    let n = v.as_slice();
    if str_is(n, "remember_fact") {
        let h = vec!["用户说「记住：xxx」或要求你记住某个事实/偏好/方法时，使用 gqy_remember_fact", "不要用普通聊天代替记忆写入；需要长期可召回的信息一律走 gqy_remember_fact"];
        proof {
            assert(strs_view(h@) =~= seq!["用户说「记住：xxx」或要求你记住某个事实/偏好/方法时，使用 gqy_remember_fact"@, "不要用普通聊天代替记忆写入；需要长期可召回的信息一律走 gqy_remember_fact"@]);
        }
        return Some(("记住事实/偏好/知识点", h));
    }
    if str_is(n, "recall_memories") {
        let h = vec!["用户问「你记得…吗」「回忆一下/想想之前」时，调用 gqy_recall_memories 并附上与内容重叠的关键词", "回答涉及跨会话信息时，先用 gqy_recall_memories / gqy_recall_past_events 检索再作答，不要凭空编造"];
        proof {
            assert(strs_view(h@) =~= seq!["用户问「你记得…吗」「回忆一下/想想之前」时，调用 gqy_recall_memories 并附上与内容重叠的关键词"@, "回答涉及跨会话信息时，先用 gqy_recall_memories / gqy_recall_past_events 检索再作答，不要凭空编造"@]);
        }
        return Some(("按关键词召回记忆", h));
    }
    if str_is(n, "recall_past_events") {
        let h = vec!["用户问「我们之前聊过什么/发生过什么」时，使用 gqy_recall_past_events"];
        proof {
            assert(strs_view(h@) =~= seq!["用户问「我们之前聊过什么/发生过什么」时，使用 gqy_recall_past_events"@]);
        }
        return Some(("召回过往事件", h));
    }
    if str_is(n, "search_evicted_context") {
        let h = vec!["用户提到很早以前的对话且当前上下文里没有时，使用 gqy_search_evicted_context"];
        proof {
            assert(strs_view(h@) =~= seq!["用户提到很早以前的对话且当前上下文里没有时，使用 gqy_search_evicted_context"@]);
        }
        return Some(("检索被压缩的上下文", h));
    }
    if str_is(n, "log_mood") || str_is(n, "recall_mood") {
        let h = vec!["用户表达情绪或询问过去的心情时，使用 gqy_log_mood / gqy_recall_mood"];
        proof {
            assert(strs_view(h@) =~= seq!["用户表达情绪或询问过去的心情时，使用 gqy_log_mood / gqy_recall_mood"@]);
        }
        return Some(("心情记录/回忆", h));
    }
    if str_is(n, "search_meme") {
        let h = vec!["用户要求发/找/使用表情包时，使用 gqy_search_meme 搜索表情包库", "聊天中气氛合适时也可以主动用 gqy_search_meme 找表情包"];
        proof {
            assert(strs_view(h@) =~= seq!["用户要求发/找/使用表情包时，使用 gqy_search_meme 搜索表情包库"@, "聊天中气氛合适时也可以主动用 gqy_search_meme 找表情包"@]);
        }
        return Some(("搜索表情包", h));
    }
    if str_is(n, "show_meme") {
        let h = vec!["用户要求发/展示某个表情包，或聊天氛围合适时，先用 gqy_search_meme 找到 id，再用 gqy_show_meme 发送（图片会直接展示）", "gqy_show_meme 需要 id 参数：从 gqy_search_meme 的结果里取"];
        proof {
            assert(strs_view(h@) =~= seq!["用户要求发/展示某个表情包，或聊天氛围合适时，先用 gqy_search_meme 找到 id，再用 gqy_show_meme 发送（图片会直接展示）"@, "gqy_show_meme 需要 id 参数：从 gqy_search_meme 的结果里取"@]);
        }
        return Some(("发送/展示表情包", h));
    }
    if str_is(n, "add_meme") {
        let h = vec!["用户提供图片并希望存入表情包库时，使用 gqy_add_meme"];
        proof {
            assert(strs_view(h@) =~= seq!["用户提供图片并希望存入表情包库时，使用 gqy_add_meme"@]);
        }
        return Some(("把图片加入表情包库", h));
    }
    if str_is(n, "delete_meme") || str_is(n, "update_meme") {
        let h = vec!["用户要求删除/更新表情包时，使用 gqy_delete_meme / gqy_update_meme"];
        proof {
            assert(strs_view(h@) =~= seq!["用户要求删除/更新表情包时，使用 gqy_delete_meme / gqy_update_meme"@]);
        }
        return Some(("管理表情包库", h));
    }
    if str_is(n, "search_knowledge_base") {
        let h = vec!["回答涉及 macOS/Homebrew/系统操作等实操问题时，优先用 gqy_search_knowledge_base 检索知识库再回答", "知识库检索不到再考虑网络搜索或 bash"];
        proof {
            assert(strs_view(h@) =~= seq!["回答涉及 macOS/Homebrew/系统操作等实操问题时，优先用 gqy_search_knowledge_base 检索知识库再回答"@, "知识库检索不到再考虑网络搜索或 bash"@]);
        }
        return Some(("检索知识库", h));
    }
    if str_is(n, "search_knowledge_base_by_name") {
        let h = vec!["用户给出明确主题/标题时，用 gqy_search_knowledge_base_by_name 查知识库"];
        proof {
            assert(strs_view(h@) =~= seq!["用户给出明确主题/标题时，用 gqy_search_knowledge_base_by_name 查知识库"@]);
        }
        return Some(("按名称检索知识库条目", h));
    }
    if str_is(n, "read_knowledge_base_file") {
        let h = vec!["需要知识库条目完整内容时，用 gqy_read_knowledge_base_file"];
        proof {
            assert(strs_view(h@) =~= seq!["需要知识库条目完整内容时，用 gqy_read_knowledge_base_file"@]);
        }
        return Some(("读取知识库条目全文", h));
    }
    if str_is(n, "upload_text_to_knowledge_base") {
        let h = vec!["用户要求把某段内容存入知识库时，用 gqy_upload_text_to_knowledge_base"];
        proof {
            assert(strs_view(h@) =~= seq!["用户要求把某段内容存入知识库时，用 gqy_upload_text_to_knowledge_base"@]);
        }
        return Some(("把内容写入知识库", h));
    }
    if str_is(n, "edit_knowledge_base_file") || str_is(n, "remove_knowledge_base_file") {
        let h = vec!["用户要求修改/删除知识库条目时，用 gqy_edit_knowledge_base_file / gqy_remove_knowledge_base_file"];
        proof {
            assert(strs_view(h@) =~= seq!["用户要求修改/删除知识库条目时，用 gqy_edit_knowledge_base_file / gqy_remove_knowledge_base_file"@]);
        }
        return Some(("编辑/删除知识库条目", h));
    }
    if str_is(n, "set_alarm") || str_is(n, "pomodoro") {
        let h = vec!["用户要求设闹钟、倒计时、定时提醒或番茄钟学习时，使用 gqy_set_alarm / gqy_pomodoro", "不要用 bash sleep 模拟闹钟，用 gqy_set_alarm 才能真正到时提醒"];
        proof {
            assert(strs_view(h@) =~= seq!["用户要求设闹钟、倒计时、定时提醒或番茄钟学习时，使用 gqy_set_alarm / gqy_pomodoro"@, "不要用 bash sleep 模拟闹钟，用 gqy_set_alarm 才能真正到时提醒"@]);
        }
        return Some(("设置闹钟/番茄钟", h));
    }
    if str_is(n, "list_alarms") || str_is(n, "cancel_alarm") {
        let h = vec!["用户询问闹钟状态或要取消闹钟时，使用 gqy_list_alarms / gqy_cancel_alarm"];
        proof {
            assert(strs_view(h@) =~= seq!["用户询问闹钟状态或要取消闹钟时，使用 gqy_list_alarms / gqy_cancel_alarm"@]);
        }
        return Some(("查看/取消闹钟", h));
    }
    if str_is(n, "draw_zhouyi_hexagram") || str_is(n, "draw_tarot_card") || str_is(n, "draw_fortune_lot") || str_is(n, "roll_dice") {
        let h = vec!["用户要算卦、抽塔罗、求签、看运势或掷骰子时，使用对应的 gqy_draw_* / gqy_roll_dice 工具", "不要用 bash 自己生成卦象或随机数代替专业工具"];
        proof {
            assert(strs_view(h@) =~= seq!["用户要算卦、抽塔罗、求签、看运势或掷骰子时，使用对应的 gqy_draw_* / gqy_roll_dice 工具"@, "不要用 bash 自己生成卦象或随机数代替专业工具"@]);
        }
        return Some(("玄学算命/掷骰子", h));
    }
    if str_is(n, "get_weather") {
        let h = vec!["用户查询天气时，使用 gqy_get_weather（不要用 bash 猜）"];
        proof {
            assert(strs_view(h@) =~= seq!["用户查询天气时，使用 gqy_get_weather（不要用 bash 猜）"@]);
        }
        return Some(("查询天气", h));
    }
    if str_is(n, "get_exchange_rate") {
        let h = vec!["用户查询汇率时，使用 gqy_get_exchange_rate"];
        proof {
            assert(strs_view(h@) =~= seq!["用户查询汇率时，使用 gqy_get_exchange_rate"@]);
        }
        return Some(("查询汇率", h));
    }
    if str_is(n, "online_man_search") || str_is(n, "online_man_get_page") {
        let h = vec!["用户要查 man 手册/命令用法时，使用 gqy_online_man_search / gqy_online_man_get_page"];
        proof {
            assert(strs_view(h@) =~= seq!["用户要查 man 手册/命令用法时，使用 gqy_online_man_search / gqy_online_man_get_page"@]);
        }
        return Some(("查询 man 手册", h));
    }
    if str_is(n, "query_moegirl") {
        let h = vec!["用户查询 ACG/萌娘百科词条时，使用 gqy_query_moegirl"];
        proof {
            assert(strs_view(h@) =~= seq!["用户查询 ACG/萌娘百科词条时，使用 gqy_query_moegirl"@]);
        }
        return Some(("查询萌娘百科", h));
    }
    if str_is(n, "calculate_hash") || str_is(n, "decode_encoded_text") {
        let h = vec!["用户要计算哈希或 base64/hex/url 等编解码时，使用 gqy_calculate_hash / gqy_decode_encoded_text"];
        proof {
            assert(strs_view(h@) =~= seq!["用户要计算哈希或 base64/hex/url 等编解码时，使用 gqy_calculate_hash / gqy_decode_encoded_text"@]);
        }
        return Some(("哈希计算/编解码", h));
    }
    if str_is(n, "scientific_calculator") {
        let h = vec!["需要精确的数学/科学计算时，使用 gqy_scientific_calculator 而不是手算"];
        proof {
            assert(strs_view(h@) =~= seq!["需要精确的数学/科学计算时，使用 gqy_scientific_calculator 而不是手算"@]);
        }
        return Some(("科学计算器", h));
    }
    if str_is(n, "read_clipboard") {
        let h = vec!["用户询问剪贴板内容或要基于剪贴板操作时，使用 gqy_read_clipboard"];
        proof {
            assert(strs_view(h@) =~= seq!["用户询问剪贴板内容或要基于剪贴板操作时，使用 gqy_read_clipboard"@]);
        }
        return Some(("读取剪贴板", h));
    }
    if str_is(n, "web_fetch") {
        let h = vec!["用户要求读取某个网页的内容时，使用 gqy_web_fetch"];
        proof {
            assert(strs_view(h@) =~= seq!["用户要求读取某个网页的内容时，使用 gqy_web_fetch"@]);
        }
        return Some(("抓取网页内容", h));
    }
    if str_is(n, "check_os_info") {
        let h = vec!["需要系统/桌面环境信息时，使用 gqy_check_os_info"];
        proof {
            assert(strs_view(h@) =~= seq!["需要系统/桌面环境信息时，使用 gqy_check_os_info"@]);
        }
        return Some(("查看系统信息", h));
    }
    if str_is(n, "query_deepseek_status") {
        let h = vec!["用户询问 API 余额/额度时，使用 gqy_query_deepseek_status"];
        proof {
            assert(strs_view(h@) =~= seq!["用户询问 API 余额/额度时，使用 gqy_query_deepseek_status"@]);
        }
        return Some(("查询 DeepSeek 余额", h));
    }
    if str_is(n, "protondb_query") {
        let h = vec!["用户询问 Linux 游戏兼容性/ProtonDB 时，使用 gqy_protondb_query"];
        proof {
            assert(strs_view(h@) =~= seq!["用户询问 Linux 游戏兼容性/ProtonDB 时，使用 gqy_protondb_query"@]);
        }
        return Some(("查询 ProtonDB 游戏兼容性", h));
    }
    if str_is(n, "speak") {
        let h = vec!["用户要求读出/播放某段文字时，使用 gqy_speak"];
        proof {
            assert(strs_view(h@) =~= seq!["用户要求读出/播放某段文字时，使用 gqy_speak"@]);
        }
        return Some(("文字转语音", h));
    }
    if str_is(n, "listen_audio") {
        let h = vec!["用户要求听一段音频时，使用 gqy_listen_audio"];
        proof {
            assert(strs_view(h@) =~= seq!["用户要求听一段音频时，使用 gqy_listen_audio"@]);
        }
        return Some(("语音转文字", h));
    }
    if str_is(n, "spawn_agent") {
        let h = vec!["用户要求「建一个某某 agent/角色代理/团队成员」或任务需要多角色协作时，用 gqy_spawn_agent 创建", "创建后对每个 agent 用 gqy_talk_to_agent 派活，多个 agent 可同一轮并行派发"];
        proof {
            assert(strs_view(h@) =~= seq!["用户要求「建一个某某 agent/角色代理/团队成员」或任务需要多角色协作时，用 gqy_spawn_agent 创建"@, "创建后对每个 agent 用 gqy_talk_to_agent 派活，多个 agent 可同一轮并行派发"@]);
        }
        return Some(("创建命名子代理（agent）", h));
    }
    if str_is(n, "talk_to_agent") {
        let h = vec!["创建 agent 后，把具体任务用 gqy_talk_to_agent 交给它；多 agent 并行时同一轮多次调用", "agent 有独立记忆，可连续对话"];
        proof {
            assert(strs_view(h@) =~= seq!["创建 agent 后，把具体任务用 gqy_talk_to_agent 交给它；多 agent 并行时同一轮多次调用"@, "agent 有独立记忆，可连续对话"@]);
        }
        return Some(("给子代理派活", h));
    }
    if str_is(n, "list_agents") || str_is(n, "kill_agent") {
        let h = vec!["用户询问有哪些 agent 或用完要销毁时，用 gqy_list_agents / gqy_kill_agent"];
        proof {
            assert(strs_view(h@) =~= seq!["用户询问有哪些 agent 或用完要销毁时，用 gqy_list_agents / gqy_kill_agent"@]);
        }
        return Some(("管理子代理", h));
    }
    if str_is(n, "task") {
        let h = vec!["用户要求并行调研多个子主题、分步骤执行复杂任务时，使用 gqy_task 拆成子 agent 并行处理", "gqy_task 内部会启动独立的子 agent，耗时可能较长，耐心等结果"];
        proof {
            assert(strs_view(h@) =~= seq!["用户要求并行调研多个子主题、分步骤执行复杂任务时，使用 gqy_task 拆成子 agent 并行处理"@, "gqy_task 内部会启动独立的子 agent，耗时可能较长，耐心等结果"@]);
        }
        return Some(("子任务（子 agent）", h));
    }
    if str_is(n, "deep_research") {
        let h = vec!["用户要求「深度研究/写研究报告/查证某个命题」时，使用 gqy_deep_research 生成带引用的结构化报告", "gqy_deep_research 会分阶段（规划→多路调研→审查→撰写）执行，可能耗时数分钟到十几分钟"];
        proof {
            assert(strs_view(h@) =~= seq!["用户要求「深度研究/写研究报告/查证某个命题」时，使用 gqy_deep_research 生成带引用的结构化报告"@, "gqy_deep_research 会分阶段（规划→多路调研→审查→撰写）执行，可能耗时数分钟到十几分钟"@]);
        }
        return Some(("深度研究（多阶段报告）", h));
    }
    if str_is(n, "analyze_image_local") {
        let h = vec!["用户提供本地图片路径、要求识别图中文字/物体/验证码/截图内容时，使用 gqy_analyze_image_local（Apple Vision，免费离线，不耗 API 额度）", "多模态模型不可用或限流时，用 gqy_analyze_image_local 兜底看图"];
        proof {
            assert(strs_view(h@) =~= seq!["用户提供本地图片路径、要求识别图中文字/物体/验证码/截图内容时，使用 gqy_analyze_image_local（Apple Vision，免费离线，不耗 API 额度）"@, "多模态模型不可用或限流时，用 gqy_analyze_image_local 兜底看图"@]);
        }
        return Some(("本地离线看图（OCR/分类）", h));
    }
    None
}

/// The prompt snippet and guidelines of an offered tool: its guidance, or for a
/// user's script tool a generic line and one rule naming it.
pub open spec fn prompt_info_spec(name: Seq<char>) -> (Seq<char>, Seq<Seq<char>>) {
    match guidance_for(name) {
        Some(g) => g,
        None => (
            "用户脚本工具："@ + name,
            seq!["用户明确要求用「"@ + name + "」这个工具/脚本时，调用 gqy_"@ + name],
        ),
    }
}

pub fn prompt_info(name: &str) -> (r: (String, Vec<String>))
    ensures
        r.0@ == prompt_info_spec(name@).0,
        strings_view(r.1@) == prompt_info_spec(name@).1,
{
    match tool_guidance(name) {
        Some((t, h)) => {
            let mut out: Vec<String> = Vec::new();
            let mut i: usize = 0;
            while i < h.len()
                invariant
                    i <= h.len(),
                    strings_view(out@) == strs_view(h@.take(i as int)),
                decreases h.len() - i,
            {
                out.push(h[i].to_string());
                assert(strs_view(h@.take(i + 1)) =~= strs_view(h@.take(i as int)).push(h@[i as int]@));
                assert(strings_view(out@) =~= strs_view(h@.take(i + 1)));
                i += 1;
            }
            assert(h@.take(h.len() as int) =~= h@);
            (t.to_string(), out)
        },
        None => {
            let mut snippet = chars_of("用户脚本工具：");
            extend_str(&mut snippet, name);
            let mut rule = chars_of("用户明确要求用「");
            extend_str(&mut rule, name);
            extend_str(&mut rule, "」这个工具/脚本时，调用 gqy_");
            extend_str(&mut rule, name);
            let mut out: Vec<String> = Vec::new();
            out.push(string_of(rule.as_slice()));
            assert(strings_view(out@) =~= seq![rule@]);
            (string_of(snippet.as_slice()), out)
        },
    }
}

} // verus!

verus! {

// ---------------------------------------------------------------- serving tool calls

/// Whether the bridge lists a tool: a GQY tool it exposes, or a user script.
pub fn bridge_lists(name: &str, is_script_tool: bool) -> (r: bool)
    ensures
        r == (exposed_tool(name@) || is_script_tool),
{
    is_exposed_tool(name) || is_script_tool
}

/// A call's arguments: `{}` in place of `null`.
pub fn call_arguments(arguments: crate::json::JsonValue) -> (r: crate::json::JsonValue)
    ensures
        !(arguments is Null) ==> r == arguments,
        arguments is Null ==> r is Object && r->Object_0@.len() == 0,
{
    match arguments {
        crate::json::JsonValue::Null => crate::json::JsonValue::Object(Vec::new()),
        other => other,
    }
}

/// How a tool call through the bridge ended.
#[derive(Debug)]
pub enum CallOutcome {
    /// The tool's output.
    Output(String),
    /// The tool failed with this error.
    Failed(String),
    /// The task running the tool failed with this error.
    TaskFailed(String),
    /// It did not finish within its timeout.
    TimedOut,
}

/// The bridge's answer: whether the call succeeded, and its output or error.
#[derive(Debug)]
pub struct CallResponse {
    pub ok: bool,
    pub output: Option<String>,
    pub error: Option<String>,
}

/// What the bridge answers for a call of `name` that ended so.
pub fn call_response(name: &str, outcome: CallOutcome) -> (r: CallResponse)
    ensures
        match outcome {
            CallOutcome::Output(o) => r.ok && r.output == Some(o) && r.error is None,
            CallOutcome::Failed(e) => !r.ok && r.output is None && r.error == Some(e),
            CallOutcome::TaskFailed(e) => !r.ok && r.output is None && (r.error matches Some(m) && m@
                == "pi bridge tool task failed: "@ + e@),
            CallOutcome::TimedOut => !r.ok && r.output is None && (r.error matches Some(m) && m@ == "GQY tool "@
                + name@ + " timed out after "@ + crate::numbers::decimal(tool_timeout_secs(name@) as nat) + "s"@),
        },
{
    match outcome {
        CallOutcome::Output(o) => CallResponse { ok: true, output: Some(o), error: None },
        CallOutcome::Failed(e) => CallResponse { ok: false, output: None, error: Some(e) },
        CallOutcome::TaskFailed(e) => {
            let mut m = chars_of("pi bridge tool task failed: ");
            crate::text::extend_str(&mut m, e.as_str());
            CallResponse { ok: false, output: None, error: Some(crate::text::string_of(m.as_slice())) }
        },
        CallOutcome::TimedOut => {
            let mut m = chars_of("GQY tool ");
            crate::text::extend_str(&mut m, name);
            crate::text::extend_str(&mut m, " timed out after ");
            crate::text::extend_chars(&mut m, crate::numbers::u64_decimal(tool_timeout(name)).as_slice());
            crate::text::extend_str(&mut m, "s");
            CallResponse { ok: false, output: None, error: Some(crate::text::string_of(m.as_slice())) }
        },
    }
}

} // verus!
